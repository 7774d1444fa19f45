pub mod geometry;
pub mod sample;
pub mod coefficient_contexts;
pub mod idtx_contexts;
pub mod golomb;
pub mod entropy;
pub mod high_range;
pub mod coefficient_levels;
pub mod coefficient_proxy;
pub mod modes;
pub mod lossy_metrics;
pub mod mode_scores;
pub mod quantization;
pub mod inverse_transform;
pub mod forward_transform;
pub mod residual_math;
pub mod lossy_candidates;
pub mod lossy_selection;
pub mod mode_contexts;
pub mod inter_syntax;
pub mod walsh_hadamard;
pub mod planar_layout;
pub mod prediction_edges;
pub mod lossless_state;
pub mod block_size;
pub mod lossy_state;
pub mod txb_skip;
pub mod txb_eob;
pub mod txb_chroma;
pub mod txb_luma;
pub mod inter_block_modes;
pub mod chroma444_leaf;
pub mod partition_features;
pub mod lossy_scoring;
pub mod lossy_recon;
pub mod lossy_dpcm_txb;
pub mod tx_partition;
pub mod dct_basis;
pub mod luma_signs;
pub mod chroma_signs;
pub mod level_laws;
