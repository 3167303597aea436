//! The texts of the Windows application manifest and version resource.

use vstd::prelude::*;

use crate::text;
use crate::text::{chars_of, check_digits, parse_digits, push_decimal, same_text, split_at_each};

verus! {

broadcast use vstd::string::group_string_axioms;

/// A version of three parts.
#[derive(Clone, Copy, Debug, PartialEq, Eq, Structural)]
pub struct Version {
    pub major: u16,
    pub minor: u16,
    pub patch: u16,
}

/// The digits of a number that may begin with a plus sign.
pub open spec fn unsigned_digits(part: Seq<char>) -> Seq<char> {
    if part.len() > 0 && part[0] == '+' {
        part.skip(1)
    } else {
        part
    }
}

/// Whether a text is a number of at most 16 bits.
pub open spec fn is_component(part: Seq<char>) -> bool {
    &&& unsigned_digits(part).len() >= 1
    &&& text::all_digits(unsigned_digits(part))
    &&& text::decimal_value(unsigned_digits(part)) <= u16::MAX
}

pub open spec fn component_value(part: Seq<char>) -> u16 {
    text::decimal_value(unsigned_digits(part)) as u16
}

fn parse_component(part: &Vec<char>) -> (r: Option<u16>)
    ensures
        r == (if is_component(part@) {
            Some(component_value(part@))
        } else {
            None
        }),
{
    let mut start: usize = 0;
    if part.len() > 0 && part[0] == '+' {
        start = 1;
    }
    let digits = vstd::slice::slice_subrange(part.as_slice(), start, part.len());
    assert(digits@ =~= unsigned_digits(part@));
    if digits.len() == 0 || !check_digits(digits) {
        return None;
    }
    match parse_digits(digits) {
        Some(value) => if value <= u16::MAX as u64 {
            Some(value as u16)
        } else {
            None
        },
        None => None,
    }
}

/// Whether a text is a version: three components between dots.
pub open spec fn is_version(version: Seq<char>, parts: Seq<Seq<char>>) -> bool {
    &&& parts.len() == 3
    &&& text::separator_free(parts, '.')
    &&& version == text::joined(parts, '.')
    &&& is_component(parts[0])
    &&& is_component(parts[1])
    &&& is_component(parts[2])
}

/// Whether a text is no version.
pub open spec fn names_no_version(version: Seq<char>) -> bool {
    forall|parts: Seq<Seq<char>>| !#[trigger] is_version(version, parts)
}

/// The three components of a version.
pub fn parse_version(version: &str) -> (r: Option<Version>)
    ensures
        match r {
            Some(parsed) => exists|parts: Seq<Seq<char>>| #[trigger]
                is_version(version@, parts) && parsed.major == component_value(parts[0])
                    && parsed.minor == component_value(parts[1]) && parsed.patch == component_value(
                    parts[2],
                ),
            None => forall|parts: Seq<Seq<char>>| !#[trigger] is_version(version@, parts),
        },
        r is None ==> names_no_version(version@),
{
    let chars = chars_of(version);
    let parts = split_at_each(chars.as_slice(), '.');
    let ghost views = text::part_views(parts@);
    proof {
        assert forall|other: Seq<Seq<char>>| #[trigger] is_version(version@, other) implies other
            == views by {
            text::lemma_joined_unique(other, views, '.');
        }
    }
    if parts.len() != 3 {
        return None;
    }
    assert(views[0] == parts@[0]@ && views[1] == parts@[1]@ && views[2] == parts@[2]@);
    let major = parse_component(&parts[0]);
    let minor = parse_component(&parts[1]);
    let patch = parse_component(&parts[2]);
    match (major, minor, patch) {
        (Some(major), Some(minor), Some(patch)) => {
            assert(is_version(version@, views));
            Some(Version { major, minor, patch })
        },
        _ => None,
    }
}

/// The manifest's name of a target architecture.
pub open spec fn manifest_architecture(target: Seq<char>) -> Option<Seq<char>> {
    if target == "x86_64"@ {
        Some("amd64"@)
    } else if target == "x86"@ {
        Some("x86"@)
    } else if target == "aarch64"@ {
        Some("arm64"@)
    } else {
        None
    }
}

pub fn processor_architecture(target: &str) -> (r: Option<&'static str>)
    ensures
        match manifest_architecture(target@) {
            Some(name) => r matches Some(architecture) && architecture@ == name,
            None => r is None,
        },
{
    if same_text(target, "x86_64") {
        Some("amd64")
    } else if same_text(target, "x86") {
        Some("x86")
    } else if same_text(target, "aarch64") {
        Some("arm64")
    } else {
        None
    }
}

/// A version with a separator between its parts.
pub open spec fn version_parts(version: Version, separator: Seq<char>) -> Seq<char> {
    text::decimal(version.major as nat) + separator + text::decimal(version.minor as nat)
        + separator + text::decimal(version.patch as nat)
}

fn push_version(out: &mut String, version: Version, separator: &str)
    ensures
        final(out)@ == old(out)@ + version_parts(version, separator@),
{
    push_decimal(out, version.major as u64);
    out.append(separator);
    push_decimal(out, version.minor as u64);
    out.append(separator);
    push_decimal(out, version.patch as u64);
    assert(out@ =~= old(out)@ + version_parts(version, separator@));
}

/// The settings that only a graphical program declares.
pub open spec fn graphical_settings() -> Seq<char> {
    r#"
            <dpiAware xmlns="http://schemas.microsoft.com/SMI/2005/WindowsSettings">true/pm</dpiAware>
            <dpiAwareness xmlns="http://schemas.microsoft.com/SMI/2016/WindowsSettings">PerMonitorV2, PerMonitor</dpiAwareness>"#@
}

/// The dependency that only a graphical program declares.
pub open spec fn common_controls() -> Seq<char> {
    r#"
    <dependency>
        <dependentAssembly>
            <assemblyIdentity
                type="win32"
                name="Microsoft.Windows.Common-Controls"
                version="6.0.0.0"
                processorArchitecture="*"
                publicKeyToken="6595b64144ccf1df"
                language="*" />
        </dependentAssembly>
    </dependency>"#@
}

/// What describes a program to Windows.
#[derive(Debug)]
pub struct ProgramIdentity {
    pub assembly_name: String,
    pub description: String,
    pub original_filename: String,
    pub version_text: String,
    pub version: Version,
    pub architecture: String,
    pub graphical_shell: bool,
}

/// The application manifest of a program.
pub open spec fn manifest_text(program: ProgramIdentity) -> Seq<char> {
    r#"<?xml version="1.0" encoding="UTF-8" standalone="yes"?>
<assembly manifestVersion="1.0" xmlns="urn:schemas-microsoft-com:asm.v1">
    <assemblyIdentity
        type="win32"
        name=""#@ + program.assembly_name@ + r#""
        version=""#@ + version_parts(program.version, "."@) + r#".0"
        processorArchitecture=""#@ + program.architecture@ + r#"" />
    <description>"#@ + program.description@ + " "@ + program.version_text@ + r#"</description>
    <trustInfo xmlns="urn:schemas-microsoft-com:asm.v3">
        <security>
            <requestedPrivileges>
                <requestedExecutionLevel level="asInvoker" uiAccess="false" />
            </requestedPrivileges>
        </security>
    </trustInfo>
    <compatibility xmlns="urn:schemas-microsoft-com:compatibility.v1">
        <application>
            <supportedOS Id="{8e0f7a12-bfb3-4fe8-b9a5-48fd50a15a9a}" />
        </application>
    </compatibility>
    <application xmlns="urn:schemas-microsoft-com:asm.v3">
        <windowsSettings>"#@ + (if program.graphical_shell {
        graphical_settings()
    } else {
        Seq::empty()
    }) + r#"
            <longPathAware xmlns="http://schemas.microsoft.com/SMI/2016/WindowsSettings">true</longPathAware>
        </windowsSettings>
    </application>"#@ + (if program.graphical_shell {
        common_controls()
    } else {
        Seq::empty()
    }) + r#"
</assembly>
"#@
}

pub fn application_manifest(program: &ProgramIdentity) -> (r: String)
    ensures
        r@ == manifest_text(*program),
{
    let mut out = String::new();
    out.append(r#"<?xml version="1.0" encoding="UTF-8" standalone="yes"?>
<assembly manifestVersion="1.0" xmlns="urn:schemas-microsoft-com:asm.v1">
    <assemblyIdentity
        type="win32"
        name=""#);
    out.append(program.assembly_name.as_str());
    out.append(r#""
        version=""#);
    push_version(&mut out, program.version, ".");
    out.append(r#".0"
        processorArchitecture=""#);
    out.append(program.architecture.as_str());
    out.append(r#"" />
    <description>"#);
    out.append(program.description.as_str());
    out.append(" ");
    out.append(program.version_text.as_str());
    out.append(r#"</description>
    <trustInfo xmlns="urn:schemas-microsoft-com:asm.v3">
        <security>
            <requestedPrivileges>
                <requestedExecutionLevel level="asInvoker" uiAccess="false" />
            </requestedPrivileges>
        </security>
    </trustInfo>
    <compatibility xmlns="urn:schemas-microsoft-com:compatibility.v1">
        <application>
            <supportedOS Id="{8e0f7a12-bfb3-4fe8-b9a5-48fd50a15a9a}" />
        </application>
    </compatibility>
    <application xmlns="urn:schemas-microsoft-com:asm.v3">
        <windowsSettings>"#);
    if program.graphical_shell {
        out.append(r#"
            <dpiAware xmlns="http://schemas.microsoft.com/SMI/2005/WindowsSettings">true/pm</dpiAware>
            <dpiAwareness xmlns="http://schemas.microsoft.com/SMI/2016/WindowsSettings">PerMonitorV2, PerMonitor</dpiAwareness>"#);
    }
    out.append(r#"
            <longPathAware xmlns="http://schemas.microsoft.com/SMI/2016/WindowsSettings">true</longPathAware>
        </windowsSettings>
    </application>"#);
    if program.graphical_shell {
        out.append(r#"
    <dependency>
        <dependentAssembly>
            <assemblyIdentity
                type="win32"
                name="Microsoft.Windows.Common-Controls"
                version="6.0.0.0"
                processorArchitecture="*"
                publicKeyToken="6595b64144ccf1df"
                language="*" />
        </dependentAssembly>
    </dependency>"#);
    }
    out.append(r#"
</assembly>
"#);
    assert(out@ =~= manifest_text(*program));
    out
}

/// A path as a resource script writes it: with slashes.
pub open spec fn slashed(path: Seq<char>) -> Seq<char> {
    path.map_values(
        |c: char|
            if c == '\\' {
                '/'
            } else {
                c
            },
    )
}

/// A path for a resource script, which cannot hold a quote.
pub fn rc_path(path: &str) -> (r: Option<String>)
    ensures
        match r {
            Some(text) => !path@.contains('"') && text@ == slashed(path@),
            None => path@.contains('"'),
        },
{
    let chars = chars_of(path);
    let mut out = String::new();
    let mut i: usize = 0;
    while i < chars.len()
        invariant
            i <= chars.len(),
            chars@ == path@,
            forall|j: int| 0 <= j < i ==> path@[j] != '"',
            out@ == slashed(path@.take(i as int)),
        decreases chars.len() - i,
    {
        let c: char = chars[i];
        if c == '"' {
            assert(path@[i as int] == '"');
            return None;
        }
        if c == '\\' {
            out.push('/');
        } else {
            out.push(c);
        }
        assert(out@ =~= slashed(path@.take(i + 1)));
        i = i + 1;
    }
    assert(path@.take(i as int) =~= path@);
    Some(out)
}

/// The version resource of a program whose manifest lies at a slashed path.
pub open spec fn resource_text(program: ProgramIdentity, manifest_path: Seq<char>) -> Seq<char> {
    r#"1 24 ""#@ + manifest_path + r#""
1 VERSIONINFO
FILEVERSION "#@ + version_parts(program.version, ","@) + r#",0
PRODUCTVERSION "#@ + version_parts(program.version, ","@) + r#",0
FILEFLAGSMASK 0x3fL
FILEFLAGS 0x0L
FILEOS 0x40004L
FILETYPE 0x1L
FILESUBTYPE 0x0L
BEGIN
    BLOCK "StringFileInfo"
    BEGIN
        BLOCK "040904B0"
        BEGIN
            VALUE "CompanyName", "Yann Ramin\0"
            VALUE "FileDescription", ""#@ + program.description@ + r#"\0"
            VALUE "FileVersion", ""#@ + program.version_text@ + r#".0\0"
            VALUE "InternalName", ""#@ + program.original_filename@ + r#"\0"
            VALUE "LegalCopyright", "Copyright (c) 2026 Yann Ramin. Licensed under Apache-2.0.\0"
            VALUE "OriginalFilename", ""#@ + program.original_filename@ + r#"\0"
            VALUE "ProductName", "AutoPierCam\0"
            VALUE "ProductVersion", ""#@ + program.version_text@ + r#"\0"
        END
    END
    BLOCK "VarFileInfo"
    BEGIN
        VALUE "Translation", 0x409, 1200
    END
END
"#@
}

/// The version resource of a program, unless a quote stands in the manifest's
/// path.
pub fn version_resource(program: &ProgramIdentity, manifest: &str) -> (r: Option<String>)
    ensures
        match r {
            Some(text) => !manifest@.contains('"') && text@ == resource_text(
                *program,
                slashed(manifest@),
            ),
            None => manifest@.contains('"'),
        },
{
    let manifest_path = match rc_path(manifest) {
        Some(path) => path,
        None => {
            return None;
        },
    };
    let mut out = String::new();
    out.append(r#"1 24 ""#);
    out.append(manifest_path.as_str());
    out.append(r#""
1 VERSIONINFO
FILEVERSION "#);
    push_version(&mut out, program.version, ",");
    out.append(r#",0
PRODUCTVERSION "#);
    push_version(&mut out, program.version, ",");
    out.append(r#",0
FILEFLAGSMASK 0x3fL
FILEFLAGS 0x0L
FILEOS 0x40004L
FILETYPE 0x1L
FILESUBTYPE 0x0L
BEGIN
    BLOCK "StringFileInfo"
    BEGIN
        BLOCK "040904B0"
        BEGIN
            VALUE "CompanyName", "Yann Ramin\0"
            VALUE "FileDescription", ""#);
    out.append(program.description.as_str());
    out.append(r#"\0"
            VALUE "FileVersion", ""#);
    out.append(program.version_text.as_str());
    out.append(r#".0\0"
            VALUE "InternalName", ""#);
    out.append(program.original_filename.as_str());
    out.append(r#"\0"
            VALUE "LegalCopyright", "Copyright (c) 2026 Yann Ramin. Licensed under Apache-2.0.\0"
            VALUE "OriginalFilename", ""#);
    out.append(program.original_filename.as_str());
    out.append(r#"\0"
            VALUE "ProductName", "AutoPierCam\0"
            VALUE "ProductVersion", ""#);
    out.append(program.version_text.as_str());
    out.append(r#"\0"
        END
    END
    BLOCK "VarFileInfo"
    BEGIN
        VALUE "Translation", 0x409, 1200
    END
END
"#);
    assert(out@ =~= resource_text(*program, slashed(manifest@)));
    Some(out)
}

proof fn lemma_decimal_component(n: nat)
    ensures
        is_component(text::decimal(n)) <==> n <= u16::MAX,
        n <= u16::MAX ==> component_value(text::decimal(n)) == n,
        !text::decimal(n).contains('.'),
{
    text::lemma_decimal(n);
    let digits = text::decimal(n);
    assert(text::is_digit(digits[0]));
    assert(unsigned_digits(digits) == digits);
    if digits.contains('.') {
        let i = choose|i: int| 0 <= i < digits.len() && digits[i] == '.';
        assert(text::is_digit(digits[i]));
    }
}

/// Three numbers with dots between them are a version exactly where each fits in sixteen
/// bits.
pub proof fn law_version_is_three_small_numbers(
    version: &str,
    major: nat,
    minor: nat,
    patch: nat,
    r: Option<Version>,
)
    requires
        call_ensures(parse_version, (version,), r),
        version@ == text::decimal(major).push('.') + text::decimal(minor).push('.')
            + text::decimal(patch),
    ensures
        r is Some <==> major <= 65_535 && minor <= 65_535 && patch <= 65_535,
        r matches Some(parsed) ==> parsed.major == major && parsed.minor == minor && parsed.patch
            == patch,
{
    let parts = seq![text::decimal(major), text::decimal(minor), text::decimal(patch)];
    lemma_decimal_component(major);
    lemma_decimal_component(minor);
    lemma_decimal_component(patch);
    assert(parts.drop_last() =~= seq![text::decimal(major), text::decimal(minor)]);
    assert(parts.drop_last().drop_last() =~= seq![text::decimal(major)]);
    reveal_with_fuel(text::joined, 4);
    assert(text::joined(seq![text::decimal(major)], '.') == text::decimal(major));
    assert(text::joined(parts.drop_last(), '.') == text::decimal(major).push('.') + text::decimal(
        minor,
    ));
    assert(version@ =~= text::joined(parts, '.'));
    if major <= 65_535 && minor <= 65_535 && patch <= 65_535 {
        assert(is_version(version@, parts));
        if r is None {
            assert(names_no_version(version@));
        }
    }
    if let Some(parsed) = r {
        let found = choose|found: Seq<Seq<char>>| #[trigger]
            is_version(version@, found) && parsed.major == component_value(found[0])
                && parsed.minor == component_value(found[1]) && parsed.patch == component_value(
                found[2],
            );
        text::lemma_joined_unique(found, parts, '.');
        assert(found[0] == parts[0] && found[1] == parts[1] && found[2] == parts[2]);
    }
}

/// A text without exactly two dots is no version.
pub proof fn law_version_has_two_dots(version: &str, parts: Seq<Seq<char>>, r: Option<Version>)
    requires
        call_ensures(parse_version, (version,), r),
        text::separator_free(parts, '.'),
        parts.len() >= 1,
        version@ == text::joined(parts, '.'),
        parts.len() != 3,
    ensures
        r is None,
{
    if let Some(parsed) = r {
        let found = choose|found: Seq<Seq<char>>| #[trigger]
            is_version(version@, found) && parsed.major == component_value(found[0])
                && parsed.minor == component_value(found[1]) && parsed.patch == component_value(
                found[2],
            );
        text::lemma_joined_unique(found, parts, '.');
    }
}

/// Three architectures have a name of their own, and no other has one.
pub proof fn law_three_architectures_are_named(target: &str, r: Option<&'static str>)
    requires
        call_ensures(processor_architecture, (target,), r),
    ensures
        target@ == "x86_64"@ ==> (r matches Some(name) && name@ == "amd64"@),
        target@ == "x86"@ && target@ != "x86_64"@ ==> (r matches Some(name) && name@ == "x86"@),
        target@ == "aarch64"@ && target@ != "x86_64"@ && target@ != "x86"@ ==> (r matches Some(
            name,
        ) && name@ == "arm64"@),
        target@ != "x86_64"@ && target@ != "x86"@ && target@ != "aarch64"@ ==> r is None,
{
}

/// A path in a resource script has slashes for backslashes, is otherwise as it was, and
/// holds no quote.
pub proof fn law_script_path_has_slashes(path: &str, r: Option<String>, i: int)
    requires
        call_ensures(rc_path, (path,), r),
    ensures
        r is None <==> exists|k: int| 0 <= k < path@.len() && #[trigger] path@[k] == '"',
        r matches Some(text) ==> text@.len() == path@.len(),
        r matches Some(text) ==> (0 <= i < path@.len() && path@[i] == '\\' ==> text@[i] == '/'),
        r matches Some(text) ==> (0 <= i < path@.len() && path@[i] != '\\' ==> text@[i]
            == path@[i]),
{
    if exists|k: int| 0 <= k < path@.len() && #[trigger] path@[k] == '"' {
        let k = choose|k: int| 0 <= k < path@.len() && #[trigger] path@[k] == '"';
        assert(path@.contains(path@[k]));
    }
}

/// The manifest of a graphical program is that of any other with two further parts.
pub proof fn law_graphical_program_declares_more(
    plain: &ProgramIdentity,
    graphical: &ProgramIdentity,
    r: String,
    s: String,
)
    requires
        call_ensures(application_manifest, (plain,), r),
        call_ensures(application_manifest, (graphical,), s),
        !plain.graphical_shell,
        *graphical == (ProgramIdentity { graphical_shell: true, ..*plain }),
    ensures
        exists|before: Seq<char>, between: Seq<char>, after: Seq<char>|
            r@ == #[trigger] (before + between + after) && s@ == before + graphical_settings()
                + between + common_controls() + after,
{
    let between = r#"
            <longPathAware xmlns="http://schemas.microsoft.com/SMI/2016/WindowsSettings">true</longPathAware>
        </windowsSettings>
    </application>"#@;
    let after = r#"
</assembly>
"#@;
    let before = r#"<?xml version="1.0" encoding="UTF-8" standalone="yes"?>
<assembly manifestVersion="1.0" xmlns="urn:schemas-microsoft-com:asm.v1">
    <assemblyIdentity
        type="win32"
        name=""#@ + plain.assembly_name@ + r#""
        version=""#@ + version_parts(plain.version, "."@) + r#".0"
        processorArchitecture=""#@ + plain.architecture@ + r#"" />
    <description>"#@ + plain.description@ + " "@ + plain.version_text@ + r#"</description>
    <trustInfo xmlns="urn:schemas-microsoft-com:asm.v3">
        <security>
            <requestedPrivileges>
                <requestedExecutionLevel level="asInvoker" uiAccess="false" />
            </requestedPrivileges>
        </security>
    </trustInfo>
    <compatibility xmlns="urn:schemas-microsoft-com:compatibility.v1">
        <application>
            <supportedOS Id="{8e0f7a12-bfb3-4fe8-b9a5-48fd50a15a9a}" />
        </application>
    </compatibility>
    <application xmlns="urn:schemas-microsoft-com:asm.v3">
        <windowsSettings>"#@;
    assert(r@ =~= before + between + after);
    assert(s@ =~= before + graphical_settings() + between + common_controls() + after);
}

/// Whether a text holds the parts one after another.
pub open spec fn holds_in_turn(
    text: Seq<char>,
    a: Seq<char>,
    b: Seq<char>,
    c: Seq<char>,
    d: Seq<char>,
) -> bool {
    exists|p: Seq<char>, q: Seq<char>, s: Seq<char>, t: Seq<char>, u: Seq<char>|
        text == #[trigger] (p + a + q + b + s + c + t + d + u)
}

/// A version resource names the manifest, and after it the program: what it is, its
/// version and its file.
pub proof fn law_version_resource_names_the_program(
    program: &ProgramIdentity,
    manifest: &str,
    path: Option<String>,
    r: Option<String>,
)
    requires
        call_ensures(rc_path, (manifest,), path),
        call_ensures(version_resource, (program, manifest), r),
    ensures
        r is None <==> path is None,
        r matches Some(text) ==> holds_in_turn(
            text@,
            path->0@,
            program.description@,
            program.version_text@,
            program.original_filename@,
        ),
{
    if let Some(text) = r {
        let p = r#"1 24 ""#@;
        let q = r#""
1 VERSIONINFO
FILEVERSION "#@ + version_parts(program.version, ","@) + r#",0
PRODUCTVERSION "#@ + version_parts(program.version, ","@) + r#",0
FILEFLAGSMASK 0x3fL
FILEFLAGS 0x0L
FILEOS 0x40004L
FILETYPE 0x1L
FILESUBTYPE 0x0L
BEGIN
    BLOCK "StringFileInfo"
    BEGIN
        BLOCK "040904B0"
        BEGIN
            VALUE "CompanyName", "Yann Ramin\0"
            VALUE "FileDescription", ""#@;
        let s = r#"\0"
            VALUE "FileVersion", ""#@;
        let t = r#".0\0"
            VALUE "InternalName", ""#@;
        let u = r#"\0"
            VALUE "LegalCopyright", "Copyright (c) 2026 Yann Ramin. Licensed under Apache-2.0.\0"
            VALUE "OriginalFilename", ""#@ + program.original_filename@ + r#"\0"
            VALUE "ProductName", "AutoPierCam\0"
            VALUE "ProductVersion", ""#@ + program.version_text@ + r#"\0"
        END
    END
    BLOCK "VarFileInfo"
    BEGIN
        VALUE "Translation", 0x409, 1200
    END
END
"#@;
        assert(text@ =~= p + path->0@ + q + program.description@ + s + program.version_text@ + t
            + program.original_filename@ + u);
    }
}

} // verus!
