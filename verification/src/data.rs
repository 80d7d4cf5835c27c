pub mod webhook;

pub use webhook::AllowedPath;
pub use webhook::AllowedPaths;
pub use webhook::WebHookData;
