//! A university's schedule of classes, read from its tab-delimited feed,
//! and the requisites of its courses, read from their boolean expressions.
//!
//! The feed is read in two passes. [`first_pass`] classifies each line by
//! its shape; [`second_pass`] gathers the classified lines into courses
//! with their lectures, sections and meetings. The fields of a line are read
//! by the parsers of [`units`], [`days`] and [`course_data`]. [`requisite`]
//! reads, evaluates and simplifies requisite expressions. [`reservation`],
//! [`course_details`], [`syllabi`] and [`dtos`] serve what is kept beside
//! the schedule: reservations, detail pages, syllabus files and listings.
//!
//! Every function is specified over the mathematical value of its data:
//! a string is its sequence of characters, and each record type has a view
//! with sequences in place of strings and vectors. What a parser returns is
//! a specification function of the input text, defined in terms of the
//! trimming and splitting of [`text`]. Laws that relate several functions,
//! such as that reading the text of a value gives the value back, are proof
//! functions.

pub mod course_data;
pub mod course_details;
pub mod days;
pub mod department;
pub mod dtos;
pub mod first_pass;
pub mod requisite;
pub mod requisite_laws;
pub mod reservation;
pub mod second_pass;
pub mod syllabi;
pub mod syllabus_data;
pub mod text;
pub mod unit_laws;
pub mod unit_number;
pub mod unit_order;
pub mod units;
