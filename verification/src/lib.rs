pub mod position;
pub mod range;
pub mod render;
pub mod text;

pub use position::composite_position::CompositePosition;
pub use position::utf16_position::Utf16Position;
pub use position::utf8_index::Utf8Index;
pub use position::utf8_position::Utf8Position;
pub use position::TextPosition;
pub use range::TextRange;
