pub mod cc32xx;
pub mod traits;
