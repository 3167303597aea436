pub mod artifact;
pub mod camera;
pub mod capture;
pub mod control;
pub mod digest;
pub mod exposure;
pub mod failure;
pub mod flag;
pub mod hex;
pub mod http;
pub mod ledger_archive;
pub mod ledger_maintenance;
pub mod ledger_retention;
pub mod ledger_rows;
pub mod ledger_schema;
pub mod message;
pub mod monitor;
pub mod number;
pub mod order;
pub mod path;
pub mod path_order;
pub mod preview;
pub mod quote;
pub mod random;
pub mod retention;
pub mod retention_worker;
pub mod shutdown;
pub mod still;
pub mod sweep;
pub mod text;
pub mod unicode;
pub mod upload;
pub mod upload_artifact;
pub mod upload_load;
pub mod upload_reconcile;
pub mod upload_record;
pub mod upload_schema;
pub mod upload_store;
pub mod video;
pub mod windows_resources;
