//! Structure of implicit solids: scalars carried by their binary64 bit
//! pattern, symbolic transforms, blend mixers and the composite tree.

pub mod scalar;
pub mod text;
pub mod geometry;
pub mod transform;
pub mod arithmetic;
pub mod field;
pub mod mixer;
pub mod solid;
pub mod object;
pub mod builder;
pub mod canonical;
