//! Verified core of a continuous-batching runtime for the Qwen3.5 hybrid
//! DeltaNet/attention models: file validation, state and cache bookkeeping,
//! slot scheduling and speculative transactions.
#![allow(unused_imports)]

pub mod adapter;
pub mod adapter_decode;
pub mod adapter_keep;
pub mod adapter_laws;
pub mod adapter_load;
pub mod adapter_prefill;
pub mod alignment;
pub mod architecture;
pub mod arena;
pub mod attention;
pub mod batch_step;
pub mod delta_layer;
pub mod delta_state;
pub mod dequant;
pub mod device_state;
pub mod embedding;
pub mod env_text;
pub mod forward;
pub mod gguf;
pub mod gguf_read;
pub mod graph;
pub mod head_load;
pub mod instance;
pub mod kernels;
pub mod kv_batch;
pub mod kv_cache;
pub mod loader;
pub mod metal_pool;
pub mod model_dims;
pub mod model_ops;
pub mod model_slots;
pub mod model_state;
pub mod model_laws;
pub mod moe;
pub mod moe_block;
pub mod mtp;
pub mod multimodal;
pub mod position;
pub mod profile;
pub mod profile_laws;
pub mod q4k;
pub mod size_laws;
pub mod speculative;
pub mod table;
pub mod text;
pub mod timings;
pub mod validation;
pub mod vision_load;
pub mod vision_profile;
