//! Verified core of a small Google Drive downloader for e-readers: the OAuth
//! flow's decisions, the Drive requests (listing every page), the decoding of
//! the JSON answers, the configuration file, the e-reader's download as a
//! state machine, and the layout of the e-reader's progress screen.
//! Sending requests, reading and writing files and drawing on the screen are
//! left to the program around the library.

pub mod auth;
pub mod config;
pub mod drive;
pub mod error;
pub mod http;
pub mod json;
pub mod progress;
pub mod sync;
pub mod text;
pub mod ui;

pub use auth::{AuthRequest, AuthToken};
pub use config::{ApiConfig, ExportedConfig};
pub use drive::{DriveFile, GoogleDriveApi};
pub use error::{ApiError, ErrorSource};
pub use json::{Json, JsonKind};
pub use progress::FileDownload;
pub use ui::Hourglass;
