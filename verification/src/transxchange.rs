//! Imports of the data sets that accompany TransXChange timetables.

pub mod naptan;
