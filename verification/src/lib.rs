//! Small Rust exercises, each stated as a verified library item: message
//! processing, ownership and string slicing, generic search, stable sorting,
//! memoizing closures, quota alerts, console command parsing, a chat relay's
//! decisions, a binary file format, bit flags, windowed iteration and
//! Fibonacci numbers.

pub mod age;
pub mod alloca;
pub mod closures;
pub mod concurrent;
pub mod console;
pub mod container;
pub mod demo;
pub mod employee;
pub mod enums;
pub mod exercise;
pub mod extender;
pub mod files;
pub mod fire;
pub mod flow;
pub mod functional;
pub mod generic;
pub mod grpc;
pub mod ownership;
pub mod panik;
pub mod pattern;
pub mod question_mark;
pub mod relay;
pub mod sequences;
pub mod smart_pointers;
pub mod spices;
pub mod staff;
pub mod thumbor;
pub mod usage;
