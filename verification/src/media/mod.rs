//! Media handling: MP4 parsing, fragmentation and segment formats.
pub mod buffer;
pub mod codec;
pub mod ffmpeg_reader;
pub mod fmp4_converter;
pub mod fragment_parser;
pub mod fragment_writer;
pub mod interface;
pub mod mp4_codec;
pub mod mp4_parser;
pub mod p2p_bridge;
pub mod publisher;
pub mod pipeline;
pub mod quality;
pub mod sample_table;
pub mod segment;
pub mod sink;
pub mod source;
pub mod stream_chunk;
pub mod streaming_transcoder;
pub mod transcoder;
pub mod video_reader;
pub mod wire_format;
