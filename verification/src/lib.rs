pub mod assoc;
pub mod game;
pub mod interagibles;
pub mod parser;
pub mod visitables;
pub mod world;

use vstd::prelude::*;

verus! {

} // verus!
