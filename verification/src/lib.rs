//! Wire-level encoding and decoding of DNS messages: the 12-byte header, the
//! question section and resource records, each with a byte-exact model that
//! the executable code is proved against.

pub mod class;
pub mod dotted;
pub mod error;
pub mod header;
pub mod hexdump;
pub mod label;
pub mod name;
pub mod question;
pub mod record;
pub mod responder;
pub mod rtype;
pub mod text;
pub mod wire;

pub use class::Class;
pub use error::{ErrorCondition, ErrorView};
pub use header::Header;
pub use label::Label;
pub use question::{Question, QuestionView};
pub use record::{RecordView, ResourceRecord};
pub use rtype::Type;
