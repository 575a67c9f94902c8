//! Backends.

pub mod supabase;

pub use supabase::{SupabaseBackend, SupabaseBuilder};
