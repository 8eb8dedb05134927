pub mod boolean;
pub mod list;
pub mod math;
pub mod predicate;
pub mod string;
pub mod dispatch;
