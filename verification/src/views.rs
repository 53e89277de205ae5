pub mod wiki;
