//! Streams a database export from an agent to a client as one ordered
//! sequence of typed frames: data chunks, diagnostic chunks and a terminal
//! status marker.

pub mod auth;
pub mod client;
pub mod codec;
pub mod commands;
pub mod demux;
pub mod dump;
pub mod dump_query;
pub mod end_to_end;
pub mod frame;
pub mod pipeline;
pub mod session;
pub mod settings;
pub mod state;
pub mod text;
pub mod util;
pub mod wire;

pub use auth::AuthMiddleware;
pub use client::Agent;
pub use codec::encode;
pub use codec::BUF_SIZE;
pub use commands::mysqldump;
pub use commands::mysqldump_data;
pub use commands::mysqldump_schema;
pub use commands::pg_dump;
pub use dump_query::DumpQuery;
pub use frame::Frame;
pub use settings::Connection;
pub use settings::ConnectionKind;
pub use settings::Database;
pub use settings::Settings;
pub use state::State;
