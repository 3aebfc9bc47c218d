//! Replicated documents: a movable tree, lists and maps that several peers edit
//! on their own and merge later, with cursors that survive edits, typed change
//! events and an undo manager. The containers are those of `loro`; this crate
//! states what each operation does to a document and proves what follows.

pub mod container;
pub mod cursor;
pub mod doc;
pub mod err;
pub mod event;
pub mod exchange;
pub mod key;
pub mod render;
pub mod seqs;
pub mod text;
pub mod undo;
pub mod value;
pub mod window;
