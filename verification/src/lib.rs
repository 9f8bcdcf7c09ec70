//! A key-value service core: the message model, the frame codec, the storage
//! abstraction, the command dispatcher with its hook pipeline, and the
//! publish/subscribe broker.

pub mod config;
pub mod error;
pub mod network;
pub mod pb;
pub mod service;
pub mod shell;
pub mod storage;
pub mod text;

pub use config::{
    ClientConfig, ClientTlsConfig, GeneralConfig, LevelConfig, LogConfig, RotationConfig,
    ServerConfig, ServerTlsConfig, StorageConfig,
};
pub use error::KvError;
pub use network::compress::gzip::Gzip;
pub use network::compress::lz4_comp::Lz4;
pub use network::compress::zstd_comp::Zstd;
pub use network::compress::{compress, decompress, Compressor, GZIP, LZ4, ZSTD};
pub use network::frame::{
    decode_header, encode_header, take_frame, write_frame, FrameCoder, COMPRESSION_LIMIT, LEN_LEN,
    MAX_FRAME,
};
pub use network::stream_result::StreamResult;
pub use pb::abi::{
    command_request, value, CommandRequest, CommandResponse, Hdel, Hexist, Hget, Hgetall, Hmdel,
    Hmexist, Hmget, Hmset, Hset, Kvpair, PSubscribe, PUnsubscribe, Publish, Subscribe,
    Unsubscribe, Value,
};
pub use service::command_service::CommandService;
pub use service::topic::{Broadcaster, Topic};
pub use service::topic_service::{StreamingResponse, TopicService};
pub use service::{dispatch, dispatch_stream, Notify, NotifyMut, Service, ServiceInner};
pub use storage::memory::MemTable;
pub use storage::{Storage, StorageIter};
