//! Request router: declarative route descriptors, a verified matching
//! engine, and combinators that compose many routes into one dispatcher.

mod descriptor;
mod engine;
mod error;
mod func;
mod future;
mod make;
mod method;
mod mount;
mod or;
mod param;
mod request;
mod route;
mod router;
mod void;
mod with;
mod strutil;
mod token;
mod value;

pub use descriptor::Descriptor;
pub use descriptor::DescriptorError;
pub use descriptor::Segment;
pub use engine::Binding;
pub use engine::Extracted;
pub use engine::Extractor;
pub use engine::ParamSpec;
pub use error::Error;
pub use func::Func;
pub use future::Either;
pub use future::Maybe;
pub use make::Make;
pub use method::Method;
pub use mount::Mount;
pub use or::Or;
pub use param::Param;
pub use request::Header;
pub use request::MethodReq;
pub use request::PathReq;
pub use request::RemovePrefix;
pub use request::Request;
pub use route::Handle;
pub use route::Route;
pub use router::check_prefix;
pub use router::Router;
pub use value::parse_int;
pub use value::Kind;
pub use value::Value;
pub use void::Void;
pub use with::With;
