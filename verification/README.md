# framefinery_codecs

Verified building blocks of an AV2 tile encoder for screen content: the
arithmetic, prediction and syntax decisions that turn the samples of a
tile into coding symbols. Every function in `src/` is verified with Verus
against a contract over mathematical models (sequences of samples and
coefficients, integer formulas, the recorded entropy fields).

Layout of `src/`:

- `geometry`, `sample`, `block_size`, `planar_layout`: transform-block
  constants, bit depths, block sizes, and where each plane of a tile lies
  in a planar frame buffer.
- `forward_transform`, `inverse_transform`, `walsh_hadamard`,
  `quantization`, `residual_math`: the 4x4, 8x8 and 4x8 DCTs, the
  Walsh-Hadamard pair of lossless coding, and the regular quantizer.
- `coefficient_contexts`, `idtx_contexts`, `coefficient_levels`,
  `coefficient_proxy`, `high_range`, `golomb`, `entropy`, `txb_skip`,
  `txb_eob`, `txb_luma`, `txb_chroma`, `tx_partition`: coefficient context
  derivation, the rate proxy, and the transform-block syntax writers.
- `prediction_edges`, `lossless_state`, `lossy_state`, `chroma444_leaf`:
  intra edges and predictors, the lossless and lossy tile states, and 8x8
  chroma leaf analysis and reconstruction.
- `lossy_metrics`, `lossy_candidates`, `lossy_selection`, `lossy_scoring`,
  `mode_scores`, `modes`: candidate residuals of lossy blocks and the
  rate-distortion choices among them.
- `lossy_recon`, `lossy_dpcm_txb`: storing reconstructed blocks, and the
  coding of lossy BDPCM blocks from analysis to syntax and reconstruction.
- `mode_contexts`, `inter_syntax`, `inter_block_modes`,
  `partition_features`: neighbour contexts of intra block copy and inter
  leaves, inter mode syntax, 8x8 inter mode maps, and the screen-content
  features that guide partitioning.

`tests/` holds the unit tests; they exercise the compiled library.
