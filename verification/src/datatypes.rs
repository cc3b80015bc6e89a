//! Data structures built for address stability and cheap reuse.

pub mod arenavec;
pub mod buckets;
pub mod stackvec;
pub mod typemap;
pub mod uniq;
pub mod warehouse;

pub use arenavec::ArenaVec;
pub use stackvec::StackVec;
pub use typemap::TypeMap;
pub use uniq::Uniq;
pub use warehouse::Warehouse;
