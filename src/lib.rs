//! Code generation core: turns a resolved model of C and C++ declarations
//! into the text of FFI bindings, one item at a time.
//!
//! - `ir`: the types of the parsed headers, referred to by position.
//! - `types`: how a type is written where it is referred to.
//! - `layout`: opaque blobs and the tracker that keeps records at their C
//!   layout.
//! - `bitfield`: bitfield units, their accessors and constructors.
//! - `comp`: structs, classes and unions.
//! - `enums`: enums in their four styles.
//! - `function`, `method`, `var`, `typedecl`, `objc`: the other emitters.
//! - `module`, `driver`: scopes, helper types at the root, and the pass.
//! - `result`: what a pass accumulates.
//! - `text`, `tokens`: decimal numbers and the token buffer items end in.

pub mod text;
pub mod tokens;
pub mod layout;
pub mod bitfield;
pub mod enums;
pub mod result;
pub mod ir;
pub mod types;
pub mod function;
pub mod method;
pub mod objc;
pub mod var;
pub mod module;
pub mod comp;
pub mod typedecl;
pub mod driver;
