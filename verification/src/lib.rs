pub mod text;
pub mod report_render;
pub mod report_blocks;
pub mod orchestrator;
pub mod events;
pub mod executor;
pub mod tools;
pub mod feishu_bot;
pub mod avatar;
pub mod recording;
pub mod json;
pub mod model;
pub mod provider;
pub mod tool_args;
pub mod stats;
pub mod tool_text;
