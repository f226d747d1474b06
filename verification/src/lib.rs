//! An in-memory lossless syntax tree: an immutable, structurally shared
//! green tree of kinds and text, and a red cursor that lays absolute
//! offsets and parent links over it.

pub mod arc_borrow;
pub mod convert;
pub mod equality;
pub mod green;
pub mod handle;
pub mod interner;
pub mod kind;
pub mod node_or_token;
pub mod red;

pub use arc_borrow::ArcBorrow;
pub use green::{GreenElement, GreenNode, GreenToken, TextSize, Tree};
pub use handle::Handle;
pub use interner::Interner;
pub use kind::Kind;
pub use node_or_token::NodeOrToken;
pub use red::RedCursor;
