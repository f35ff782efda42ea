//! Release records of the Android Studio releases list.
//!
//! The page that lists the releases of Android Studio holds a table with
//! one row for each release. This library finds the rows and turns each of
//! them into a [`release::Release`]:
//!
//! - [`parse`] finds the table and its rows in the page and reads the texts
//!   of the cells, with the selectors of [`selectors`] and the HTML tree of
//!   [`markup`];
//! - [`release`] puts a release together from the four texts of a row;
//! - [`name`], [`title`] and [`date`] read the fields: codename and version
//!   title from the name cell, channel and counter from the version title,
//!   and the day of the release;
//! - [`channel`] holds the channels, [`error`] what can go wrong, [`text`]
//!   the characters that the texts are made of, and [`address`] the address
//!   of the page.
//!
//! What a function gives is stated over sequences of characters, so that a
//! text and the characters of a `String` can be spoken of alike.

pub mod address;
pub mod channel;
pub mod date;
pub mod error;
pub mod markup;
pub mod name;
pub mod parse;
pub mod release;
pub mod selectors;
pub mod text;
pub mod title;
