//! A retained-mode scene graph: the node tree, the order in which it is
//! traversed and drawn, the layout of the geometry buffers behind a node, and
//! the input state that the event loop and the frame loop share.

pub mod camera;
pub mod draw_order;
pub mod event_loop;
pub mod geometry;
pub mod input;
pub mod node;
pub mod placement;
pub mod resource;
pub mod scene;
pub mod traversal;
