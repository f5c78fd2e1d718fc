pub mod disposition;
pub mod error;
pub mod headers;
pub mod percent;

pub use crate::disposition::ContentDisposition;
pub use crate::disposition::DispositionKind;
pub use crate::disposition::DispositionParam;
pub use crate::error::HeaderError;
pub use crate::headers::parse_expiry_date;
pub use crate::headers::parse_header_filename;
pub use crate::headers::Duration;
pub use crate::headers::EXPIRE;
