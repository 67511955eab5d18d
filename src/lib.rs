//! Builds a static blog from date-named markdown posts: recognises posts,
//! extracts their titles and dates, renders them, orders them, and decides
//! which static assets are published beside them.

pub mod text;
pub mod post;
pub mod date;
pub mod title;
pub mod article;
pub mod order;
pub mod assets;
pub mod page;
