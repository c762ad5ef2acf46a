//! Parser, validator, and serializer for the Desktop Entry file format:
//! an INI-like structure of `[Group]` headers and `Key[locale]=value`
//! entries, with locale-aware value resolution and list/boolean value
//! encodings.

pub mod assoc;
pub mod chars;
pub mod errors;
pub mod fields;
pub mod laws;
pub mod locale;
pub mod model;
pub mod parse;
pub mod serialize;
pub mod values;

pub use chars::split_lines;
pub use errors::DesktopEntryError;
pub use locale::Locale;
pub use model::Comment;
pub use model::DesktopEntry;
pub use model::DesktopEntryType;
pub use model::Entry;
pub use model::Group;
pub use values::IconString;
pub use values::LocalizedString;
pub use values::LocalizedStringList;
