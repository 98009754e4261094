// birbfetcher - Collect bird images with ease.
// Copyright (C) 2020-2021 Mariell Hoversholm
//
// This program is free software: you can redistribute it and/or modify
// it under the terms of the GNU General Public License as published by
// the Free Software Foundation, either version 3 of the License, or
// (at your option) any later version.
//
// This program is distributed in the hope that it will be useful,
// but WITHOUT ANY WARRANTY; without even the implied warranty of
// MERCHANTABILITY or FITNESS FOR A PARTICULAR PURPOSE.  See the
// GNU General Public License for more details.
//
// You should have received a copy of the GNU General Public License
// along with this program.  If not, see <https://www.gnu.org/licenses/>.

//! The verified core of a bird-picture collector: which feed posts may be
//! kept, how their pictures are keyed and stored once, how kept items move
//! between moderation states, and how the database schema is brought up to
//! date.

pub mod bytes;
pub mod config;
pub mod digest;
pub mod error;
pub mod ingest;
pub mod migrations;
pub mod moderation;
pub mod moderator;
pub mod reddit;
pub mod repository;
pub mod statements;
pub mod store;
pub mod sweep;
pub mod tasks;
mod text;
