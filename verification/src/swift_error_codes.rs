//! SWIFT error code constants, organised by series, with metadata for a
//! selection of them and the regional, charge and currency lists that the
//! validations use.

pub mod t_series;
pub mod c_series;
pub mod d_series;
pub mod e_series;
pub mod g_series;
pub mod metadata;
pub mod regional;
pub mod charges;
pub mod currencies;
