//! Three-party secret-shared AES: the field and share arithmetic, the
//! vectorized state with its local round transforms, the forward and
//! inverse round pipelines for the 128- and 256-bit variants, the
//! semi-honest and malicious-secure key schedules, and the input- and
//! key-sharing protocols' local computations. The one interactive
//! nonlinear step, S-box inversion over shares, is delegated to a backend
//! through the capability traits; everything local is verified, and the
//! block-level model proves the round transforms and the whole evaluation
//! invertible.
use vstd::prelude::*;

pub mod cipher;
pub mod gf8;
pub mod library;
pub mod malicious;
pub mod model;
pub mod reference;
pub mod rss;
pub mod sharing;
pub mod state;

verus! {

} // verus!
