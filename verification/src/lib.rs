//! The logic of a lightweight QQ chat client: the OneBot v11 session, message
//! rows and conversations, the sidebar, sticker packs and the frame player.
//!
//! Modules whose names end in `_laws` state what holds across calls.

pub mod chat;
pub mod chat_laws;
pub mod convo;
pub mod decimal;
pub mod json;
pub mod json_laws;
pub mod message_laws;
pub mod onebot;
pub mod onebot_laws;
pub mod order;
pub mod player;
pub mod player_laws;
pub mod request_laws;
pub mod sticker_file_laws;
pub mod sticker_laws;
pub mod stickers;
pub mod text;
pub mod text_laws;
pub mod transport;
pub mod window_laws;
