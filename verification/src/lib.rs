//! Declarative field validation in two stages. A build-time pipeline reads
//! rule entries such as `len(min = 1, max = 16)` off a data structure's
//! fields ([`grammar`]), binds their arguments and checks message templates
//! ([`bind`], [`template`]), and lays the bound rules out in declaration
//! order as a [`plan::ValidationPlan`], whose `validate` method judges an
//! instance rule by rule and stops at the first violation. The rules
//! themselves ([`rules`]) are written once per kind against small capability
//! views - a length, a magnitude, a membership test, a string form - so any
//! value that projects to such a view can be judged. [`laws`] states and
//! proves the ordering and boundary guarantees the whole arrangement rests
//! on.

pub mod bind;
pub mod error;
pub mod grammar;
pub mod laws;
pub mod plan;
pub mod rules;
pub mod template;
pub mod text;
pub mod unicode;
