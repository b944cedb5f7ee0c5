//! A retained view tree: each cycle the application describes the tree it
//! wants as a value, and the library brings the elements it keeps in line with
//! that description, touching only what differs. Events travel back to the
//! node that asked for them along its identity path.

pub mod any_view;
pub mod button;
pub mod ctx;
pub mod element;
pub mod host;
pub mod id_path;
pub mod message;
pub mod optional_list;
pub mod orphan;
pub mod replacement;
pub mod seq_option;
pub mod seq_tuple;
pub mod seq_vec;
pub mod sequence;
pub mod splice;
pub mod trace;
pub mod view;
pub mod widget;

pub use any_view::{AnyMarker, AnyViewState, OneOf2};
pub use button::{button, Button};
pub use ctx::ViewCtx;
pub use element::{AnyElement, SuperElement, ViewElement};
pub use host::{action_message, widget_message, WidgetKey};
pub use id_path::{PathCx, ViewId, ViewPathTracker};
pub use message::{DynMessage, MessageResult, WidgetAction};
pub use orphan::{OrphanImpl, OrphanView};
pub use seq_option::{OptionMarker, OptionSeqState};
pub use seq_tuple::TupleMarker;
pub use seq_vec::VecMarker;
pub use sequence::{OneMarker, ViewSequence};
pub use splice::{AppendVec, ElementSplice, RecordingSplice, SeqChildren, SeqTracker, SpliceOp};
pub use trace::{sequence, Operation, OperationView, SequenceView, TraceAction, TraceElement};
pub use view::{View, ViewMarker};
pub use widget::{ButtonWidget, Pod};
