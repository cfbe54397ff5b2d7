pub mod types;
pub mod outbox;
pub mod terminal;
pub mod connection;
pub mod manager;

pub use connection::SSHConnection;
pub use manager::SSHManager;
pub use outbox::{EventBus, HostAction, Outbox, TaskKind};
pub use terminal::TerminalSessionManager;
pub use types::{
    AuthMethod,
    ConnectionStatus,
    Resolution,
    SSHConnectionConfig,
    SSHConnectionState,
    SSHEvent,
    TerminalSession,
    TerminalSize,
    ValidationError,
};
