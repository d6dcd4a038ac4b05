//! Batch image-resizing core: traversal filtering, mirrored output paths,
//! the overwrite-confirmation protocol, and per-format conversion parameters.
//!
//! The pixel work itself (decode, resize, encode) is delegated to an external
//! codec; this crate contains the verified decision logic around it: which
//! files are eligible, where each output goes, when an existing output may be
//! overwritten, and which parameters each format receives.

pub mod classify;
pub mod config;
pub mod format;
pub mod gate;
pub mod messages;
pub mod paths;
pub mod plan;
pub mod session;
pub mod text;

pub use classify::extension_of;
pub use classify::is_eligible_extension;
pub use classify::is_eligible_file;
pub use config::check_output_type;
pub use config::Config;
pub use config::FsNode;
pub use config::SetupError;
pub use format::conv_params;
pub use format::format_from_name;
pub use format::ConvParams;
pub use format::Format;
pub use gate::classify_token;
pub use gate::resolve_with_tokens;
pub use gate::Answer;
pub use gate::Decision;
pub use messages::prompt_line;
pub use messages::resized_message;
pub use paths::join_path;
pub use paths::mirror_output;
pub use plan::plan_items;
pub use plan::plan_single;
pub use plan::WorkItem;
pub use session::confirm_existing_batch;
pub use session::PromptEvent;
