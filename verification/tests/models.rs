use gpt_sovits_rs::config::Device;
use gpt_sovits_rs::convert::TensorInfo;
use gpt_sovits_rs::float_bits::F32;
use gpt_sovits_rs::matrix::{is_transposed, matrix_index};
use gpt_sovits_rs::models::bert::{
    canonical_name, token_rows, tokenize, BertModel, MAX_TOKENS,
};
use gpt_sovits_rs::models::bigvgan::{
    check_spectrogram, filter_padding, snake_shape, BigVGAN, SnakeShape, ResidualBlock,
};
use gpt_sovits_rs::models::decoding::{
    decode_path, embedding_place, graph_step, DecodePath, DecodeRule, EmbeddingPlace, GraphStep,
    TokenDecoder,
};
use gpt_sovits_rs::models::gpt::{
    adds_bert, adds_hubert, bert_layout, hubert_layout, FeatureLayout, GptPlan,
};
use gpt_sovits_rs::models::hubert::{sample_kind, with_tail_silence, SampleKind, TAIL_SILENCE};
use gpt_sovits_rs::models::masks::{
    align_bert_to_phonemes, cache_mask, create_causal_mask, create_hybrid_mask, sequence_mask,
    stretch_frames,
};
use gpt_sovits_rs::models::placed::Placement;
use gpt_sovits_rs::models::sampling::{
    are_numbers, argmax, cut_top_p, descending_order, draw, draw_in_order, keep_top_k,
    nucleus_len, penalised_tokens, reach,
};
use gpt_sovits_rs::models::semantic_tokenizer::{argmin_2d, SemanticTokenizer};
use gpt_sovits_rs::models::sovits::{
    check_tokens, debug_file, debug_stages, nearest_upsample_2x, sample_dump, tensor_dump, token_dump, Quantizer,
    SoVITSModel,
};
use gpt_sovits_rs::models::sovits_decoder::{upsample_padding, Decoder};
use gpt_sovits_rs::models::sovits_encp::{
    absolute_to_relative, relative_slice, relative_to_absolute, SelfAttention,
};
use gpt_sovits_rs::models::sovits_encq::{load_sparse_wn, EncQ};
use gpt_sovits_rs::models::sovits_flow::{flip_indices, FlowStep, ResidualCouplingBlock, WN};
use gpt_sovits_rs::models::sovits_ref_enc::RefEnc;
use gpt_sovits_rs::models::token_setup::{
    has_room, is_fit, is_lasting, is_one_sided, is_short_padding, is_single_template, Piece,
};
use gpt_sovits_rs::models::transformer::{
    check_layers, fused_offsets, load_fused_layers, Transformer, TransformerConfig,
};
use gpt_sovits_rs::models::wav2vec2::Wav2Vec2Model;
use gpt_sovits_rs::models::weights::{load_conv, Conv, ConvKind, Weights};
use gpt_sovits_rs::models::{mrte, sovits_encp, Model};
use gpt_sovits_rs::Error;

fn bits(values: &[f32]) -> Vec<F32> {
    values.iter().map(|v| F32::from_bits(v.to_bits())).collect()
}

fn one(value: f32) -> F32 {
    F32::from_bits(value.to_bits())
}

fn floats(values: &[F32]) -> Vec<f32> {
    values.iter().map(|v| f32::from_bits(v.to_bits())).collect()
}

fn infos(tensors: &[(String, Vec<usize>)]) -> Vec<TensorInfo> {
    tensors
        .iter()
        .map(|(name, dims)| TensorInfo { name: name.clone(), dims: dims.clone() })
        .collect()
}

fn weights(tensors: &[(&str, &[usize])]) -> Weights {
    let owned: Vec<(String, Vec<usize>)> =
        tensors.iter().map(|(name, dims)| (name.to_string(), dims.to_vec())).collect();
    Weights::new(infos(&owned))
}

#[test]
fn test_causal_mask() {
    let mask_vec = floats(&create_causal_mask(4));

    // First row should be [1, 0, 0, 0]
    assert_eq!(mask_vec[0], 1.0);
    assert_eq!(mask_vec[1], 0.0);
}

#[test]
fn causal_mask_sees_what_came_before() {
    assert_eq!(floats(&create_causal_mask(3)), [1., 0., 0., 1., 1., 0., 1., 1., 1.]);
    assert!(create_causal_mask(0).is_empty());
}

#[test]
fn hybrid_mask_blocks_audio_from_text_and_what_follows() {
    assert_eq!(
        floats(&create_hybrid_mask(2, 4)),
        [0., 0., 1., 1., 0., 0., 1., 1., 0., 0., 0., 1., 0., 0., 0., 0.]
    );
}

#[test]
fn sequence_masks_go_by_length() {
    assert_eq!(floats(&sequence_mask(&vec![1, 3, 0], 3)), [1., 0., 0., 1., 1., 1., 0., 0., 0.]);
    assert_eq!(floats(&cache_mask(2, 3, 1)), [0., 1., 1., 0., 1., 1.]);
}

#[test]
fn nearest_upsample_repeats_each_frame() {
    // [1, 2, 3] frames, row by row
    let output = nearest_upsample_2x(&bits(&[1., 2., 3., 4., 5., 6.]));
    assert_eq!(output.len(), 12);
    assert_eq!(floats(&output), [1., 1., 2., 2., 3., 3., 4., 4., 5., 5., 6., 6.]);
}

#[test]
fn quantizer_decodes_codes_without_changing_layout() {
    let codebook = bits(&[1., 2., 3., 4., 5., 6.]);
    let quantizer = Quantizer::new(2, 3, codebook);

    let output = quantizer.decode(&vec![2, 0, 1, 2], 2, 2).unwrap();
    assert_eq!(output.len(), 8);
    assert_eq!(floats(&output), [5., 1., 6., 2., 3., 5., 4., 6.]);
}

#[test]
fn quantizer_refuses_unknown_codes() {
    let quantizer = Quantizer::new(2, 3, bits(&[1., 2., 3., 4., 5., 6.]));
    assert!(quantizer.decode(&vec![0, 3], 1, 2).is_none());
    assert!(quantizer.decode(&Vec::new(), 1, 0).is_none());
}

#[test]
fn argmin_returns_one_index_per_frame() {
    let distances = bits(&[3., 1., 2., -1., 4., 0.]);
    assert_eq!(argmin_2d(&distances, 2, 3), vec![1, 0]);
}

#[test]
fn argmin_takes_the_first_of_equals() {
    assert_eq!(argmin_2d(&bits(&[2., 2., 1., 1., -0.0, 0.0]), 3, 2), vec![0, 0, 0]);
}

#[test]
fn argmax_takes_the_greatest() {
    assert_eq!(argmax(&bits(&[-3., 2.5, -1.])), 1);
    assert_eq!(argmax(&bits(&[1., 4., 4.])), 2);
    assert_eq!(argmax(&Vec::new()), 0);
}

#[test]
fn nan_scores_are_told_apart() {
    assert!(are_numbers(&bits(&[1., f32::INFINITY, -0.0])));
    assert!(!are_numbers(&bits(&[1., f32::NAN])));
}

#[test]
fn penalty_takes_each_known_token_once() {
    assert_eq!(penalised_tokens(5, &vec![1, 7, 1], &vec![4, 1, 0]), vec![1, 4, 0]);
}

#[test]
fn top_k_keeps_the_greatest_scores() {
    let low = f32::NEG_INFINITY;
    assert_eq!(floats(&keep_top_k(&bits(&[1., 5., 3., 4.]), 2)), [low, 5., low, 4.]);
    // a tie with the last that is kept stays too
    assert_eq!(floats(&keep_top_k(&bits(&[1., 3., 3., 4.]), 2)), [low, 3., 3., 4.]);
    assert_eq!(floats(&keep_top_k(&bits(&[1., 5.]), 0)), [1., 5.]);
    assert_eq!(floats(&keep_top_k(&bits(&[1., 5.]), 2)), [1., 5.]);
}

#[test]
fn scores_are_put_in_descending_order() {
    assert_eq!(descending_order(&bits(&[0.5, -1., 2., 0.25])), vec![2, 0, 3, 1]);
}

#[test]
fn top_p_cuts_what_is_behind_the_share() {
    let scores = bits(&[0.1, 0.6, 0.3]);
    let order = descending_order(&scores);
    assert_eq!(order, vec![1, 2, 0]);
    // sums of the shares before each score
    let sums = bits(&[0., 0.6, 0.9]);
    let low = f32::NEG_INFINITY;
    assert_eq!(floats(&cut_top_p(&scores, &order, &sums, one(0.7))), [low, 0.6, 0.3]);
}

#[test]
fn draws_reach_the_first_sum_that_is_enough() {
    let sums = bits(&[0.25, 0.75, 1.0]);
    assert_eq!(reach(&sums, one(0.25)), Some(0));
    assert_eq!(reach(&sums, one(0.3)), Some(1));
    assert_eq!(reach(&sums, one(1.5)), None);
    assert_eq!(draw(&sums, &bits(&[0.25, 0.5, 0.25]), one(0.9)), 2);
    // where no sum is reached, the most probable one
    assert_eq!(draw(&sums, &bits(&[0.25, 0.5, 0.25]), one(1.5)), 1);
    assert_eq!(nucleus_len(&sums, one(0.5)), 2);
    assert_eq!(nucleus_len(&sums, one(2.0)), 3);
    assert_eq!(draw_in_order(&vec![7, 3, 5], &sums, one(0.5)), 3);
    assert_eq!(draw_in_order(&vec![7, 3, 5], &sums, one(1.5)), 7);
    assert_eq!(draw_in_order(&Vec::new(), &Vec::new(), one(0.5)), 0);
}

#[test]
fn bert_frames_are_repeated_by_word() {
    // five frames: the first and the last are markers
    assert_eq!(align_bert_to_phonemes(5, 4, &vec![2, 1, 1]), Some(vec![1, 1, 2, 3]));
}

#[test]
fn bert_frames_are_cut_or_stretched_where_words_do_not_fit() {
    assert_eq!(align_bert_to_phonemes(5, 2, &vec![2, 1, 1]), Some(vec![1, 2]));
    assert_eq!(align_bert_to_phonemes(4, 4, &Vec::new()), Some(vec![1, 1, 2, 2]));
    assert_eq!(align_bert_to_phonemes(2, 4, &Vec::new()), None);
    assert_eq!(align_bert_to_phonemes(1, 2, &Vec::new()), Some(vec![0, 0]));
}

#[test]
fn frames_are_stretched_by_the_last() {
    assert_eq!(stretch_frames(2, 4), vec![0, 1, 1, 1]);
    assert_eq!(stretch_frames(3, 2), vec![0, 1]);
}

#[test]
fn decoding_ends_at_the_end_token() {
    let mut decoder = TokenDecoder::new(DecodeRule::Features, 10, 0, 5);
    assert_eq!(decoder.score_count(), 10);
    decoder.take(3, 9);
    assert!(decoder.wants_more());
    decoder.take(9, 1);
    assert!(!decoder.wants_more());
    assert_eq!(decoder.tokens, vec![3]);
}

#[test]
fn masked_steps_cannot_end_decoding() {
    let mut decoder = TokenDecoder::new(DecodeRule::Prompted, 10, 4, 50);
    for step in 0..11 {
        assert_eq!(decoder.score_count(), 9);
        decoder.take(step % 9, 9);
        assert!(decoder.wants_more());
    }
    assert_eq!(decoder.score_count(), 10);
    assert_eq!(decoder.position(), 14);
    // behind them, the end token ends decoding where it scores highest
    decoder.take(2, 9);
    assert!(!decoder.wants_more());
    assert_eq!(decoder.tokens.len(), 11);
}

#[test]
fn decoding_stops_at_the_limit() {
    let mut decoder = TokenDecoder::new(DecodeRule::Prompted, 10, 0, 2);
    decoder.take(1, 1);
    decoder.take(2, 2);
    assert!(!decoder.wants_more());
    assert!(!TokenDecoder::new(DecodeRule::Prompted, 10, 0, 0).wants_more());
    assert!(TokenDecoder::new(DecodeRule::Cached, 10, 0, 0).wants_more());
    assert_eq!(decoder.cache_len(30), 31);
}

#[test]
fn graphs_are_captured_after_a_warmup() {
    assert_eq!(decode_path(true, false), DecodePath::Graph);
    assert_eq!(decode_path(true, true), DecodePath::Eager);
    assert_eq!(decode_path(false, false), DecodePath::Eager);
    let steps: Vec<GraphStep> = (0..6).map(graph_step).collect();
    assert_eq!(
        steps,
        vec![
            GraphStep::Prefill,
            GraphStep::Warmup,
            GraphStep::Warmup,
            GraphStep::Warmup,
            GraphStep::Capture,
            GraphStep::Replay
        ]
    );
}

#[test]
fn embeddings_of_text_come_first() {
    assert_eq!(embedding_place(4, 5, 3), Ok(EmbeddingPlace::Text(4)));
    assert_eq!(embedding_place(5, 5, 3), Ok(EmbeddingPlace::Audio(0)));
    assert_eq!(embedding_place(8, 5, 3), Err(3));
}

#[test]
fn weights_are_found_by_name() {
    let w = weights(&[("a", &[2, 3]), ("b", &[])]);
    assert_eq!(w.len(), 2);
    assert_eq!(w.name(1), "b");
    assert_eq!(w.get("b"), Ok(1));
    assert_eq!(w.get("c"), Err("c".to_string()));
    assert_eq!(w.get_optional("c"), None);
    assert_eq!(w.dim(0, 1), Some(3));
    assert_eq!(w.dim(0, 2), None);
    assert_eq!(w.get_shaped("a", &vec![2, 3]), Ok(0));
    assert_eq!(w.get_shaped("a", &vec![3, 2]), Err("a".to_string()));
    let w = weights(&[("a", &[0, 0x8000_0000])]);
    assert_eq!(w.dim(0, 0), Some(0));
    assert_eq!(w.dim(0, 1), Some(0x8000_0000));
}

#[test]
fn convolutions_are_padded_by_kind() {
    let w = weights(&[
        ("p.weight", &[4, 4, 5]),
        ("p.bias", &[4]),
        ("n.weight_g", &[4, 1, 1]),
        ("n.weight_v", &[4, 4, 3]),
    ]);
    assert_eq!(
        load_conv(&w, "p", ConvKind::Plain),
        Ok(Conv { gain: None, weight: 0, bias: Some(1), padding: 2, dilation: 1 })
    );
    assert_eq!(load_conv(&w, "p", ConvKind::Unpadded).unwrap().padding, 0);
    assert_eq!(
        load_conv(&w, "n", ConvKind::Dilated),
        Ok(Conv { gain: Some(2), weight: 3, bias: None, padding: 3, dilation: 3 })
    );
    assert_eq!(load_conv(&w, "n", ConvKind::Normed).unwrap().padding, 1);
    assert_eq!(load_conv(&w, "n", ConvKind::ByGain).unwrap().gain, Some(2));
    assert_eq!(load_conv(&w, "p", ConvKind::ByDirection).unwrap().gain, None);
    assert_eq!(load_conv(&w, "p", ConvKind::Normed), Err("p.weight_g".to_string()));
}

#[test]
fn convolutions_need_a_width_to_be_padded() {
    let w = weights(&[
        ("p.weight", &[4, 4, 0]),
        ("n.weight_g", &[4, 1, 1]),
        ("n.weight_v", &[4, 4, 0]),
        ("m.weight_g", &[4, 1, 1]),
        ("m.weight_v", &[4, 4, usize::MAX]),
    ]);
    assert_eq!(load_conv(&w, "p", ConvKind::Plain), Err("p.weight".to_string()));
    assert_eq!(load_conv(&w, "p", ConvKind::Unpadded).unwrap().padding, 0);
    assert_eq!(load_conv(&w, "n", ConvKind::Normed), Err("n.weight_v".to_string()));
    let dilated = load_conv(&w, "n", ConvKind::Dilated).unwrap();
    assert_eq!((dilated.padding, dilated.dilation), (0, 0));
    assert_eq!(load_conv(&w, "m", ConvKind::Normed).unwrap().padding, usize::MAX / 2);
    assert_eq!(load_conv(&w, "m", ConvKind::Dilated), Err("m.weight_v".to_string()));
}

fn gpt_names(layers: usize) -> Vec<(String, Vec<usize>)> {
    let mut names = vec![
        ("model.ar_text_embedding.word_embeddings.weight".to_string(), vec![732, 512]),
        ("model.ar_audio_embedding.word_embeddings.weight".to_string(), vec![1025, 512]),
        ("model.bert_proj.weight".to_string(), vec![512, 1024]),
        ("model.bert_proj.bias".to_string(), vec![512]),
        ("model.ar_predict_layer.weight".to_string(), vec![1025, 512]),
    ];
    for i in 0..layers {
        for (name, dims) in [
            ("self_attn.in_proj_weight", vec![1536, 512]),
            ("self_attn.in_proj_bias", vec![1536]),
            ("self_attn.out_proj.weight", vec![512, 512]),
            ("self_attn.out_proj.bias", vec![512]),
            ("linear1.weight", vec![2048, 512]),
            ("linear1.bias", vec![2048]),
            ("linear2.weight", vec![512, 2048]),
            ("linear2.bias", vec![512]),
            ("norm1.weight", vec![512]),
            ("norm1.bias", vec![512]),
            ("norm2.weight", vec![512]),
            ("norm2.bias", vec![512]),
        ] {
            names.push((format!("model.h.layers.{i}.{name}"), dims));
        }
    }
    names
}

#[test]
fn gpt_is_found_by_the_names_of_its_tensors() {
    let w = Weights::new(infos(&gpt_names(2)));
    let plan = GptPlan::load(&w).ok().unwrap();
    assert_eq!(
        plan.config,
        TransformerConfig {
            vocab_size: 732,
            hidden_size: 512,
            intermediate_size: 2048,
            num_hidden_layers: 2,
            num_attention_heads: 16,
            max_seq_len: 2048,
        }
    );
    assert_eq!(plan.layers.len(), 2);
    assert_eq!(plan.bert_proj.unwrap().weight, 2);
    assert!(plan.hubert_proj.is_none());
    assert!(plan.mrte.is_none());
    assert_eq!(plan.text_pos_alpha, None);
    assert_eq!(plan.ar_predict_layer, 4);
}

#[test]
fn gpt_names_the_first_tensor_that_is_missing() {
    let mut names = gpt_names(2);
    let gone = "model.h.layers.1.norm1.bias";
    names.retain(|(name, _)| name != gone);
    let w = Weights::new(infos(&names));
    assert_eq!(GptPlan::load(&w).err(), Some(gone.to_string()));
    assert_eq!(load_fused_layers(&w, 2, 512).err(), Some(gone.to_string()));
    assert_eq!(load_fused_layers(&w, 1, 512).unwrap().len(), 1);
    names.retain(|(name, _)| name != "model.bert_proj.bias");
    let w = Weights::new(infos(&names));
    assert_eq!(GptPlan::load(&w).err(), Some("model.bert_proj.bias".to_string()));
}

#[test]
fn joint_projections_have_rows_for_all_three() {
    for (name, dims) in [
        ("model.h.layers.1.self_attn.in_proj_weight", vec![1535, 512]),
        ("model.h.layers.0.self_attn.in_proj_bias", vec![1024]),
    ] {
        let mut names = gpt_names(2);
        for tensor in &mut names {
            if tensor.0 == name {
                tensor.1 = dims.clone();
            }
        }
        let w = Weights::new(infos(&names));
        assert_eq!(GptPlan::load(&w).err(), Some(name.to_string()));
    }
}

#[test]
fn a_fusion_needs_all_its_tensors_in_their_shapes() {
    let mut names = gpt_names(1);
    for part in ["conv_q", "conv_k", "conv_v", "conv_o"] {
        names.push((format!("model.mrte.cross_attention.{part}.weight"), vec![512, 512, 1]));
        names.push((format!("model.mrte.cross_attention.{part}.bias"), vec![512]));
    }
    for (part, from) in [("c_pre", 768), ("text_pre", 768), ("c_post", 512)] {
        names.push((format!("model.mrte.{part}.weight"), vec![512, from, 1]));
        names.push((format!("model.mrte.{part}.bias"), vec![512]));
    }
    let fusion = GptPlan::load(&Weights::new(infos(&names))).ok().unwrap().mrte.unwrap();
    assert_eq!((fusion.cross_attention.n_heads, fusion.cross_attention.k_channels), (8, 64));
    let last = names.len() - 1;
    names[last].1 = vec![511];
    let w = Weights::new(infos(&names));
    assert!(GptPlan::load(&w).ok().unwrap().mrte.is_none());
    assert_eq!(
        mrte::MRTE::new(768, 512, 512, 8, &w, "model.mrte").err(),
        Some("model.mrte.c_post.bias".to_string())
    );
    names.truncate(last);
    assert!(GptPlan::load(&Weights::new(infos(&names))).ok().unwrap().mrte.is_none());
}

#[test]
fn features_are_used_where_they_fit() {
    assert_eq!(bert_layout(&vec![1, 1024, 7]), FeatureLayout::Channels);
    assert_eq!(bert_layout(&vec![1, 7, 1024]), FeatureLayout::Frames);
    assert_eq!(hubert_layout(&vec![1, 7, 768]), FeatureLayout::Frames);
    assert!(adds_bert(7, 512, 7, 512));
    assert!(!adds_bert(6, 512, 7, 512));
    assert!(!adds_bert(7, 256, 7, 512));
    assert!(adds_hubert(1, 512, 512));
    assert!(!adds_hubert(0, 512, 512));
}

#[test]
fn a_transformer_needs_positions_for_every_place() {
    let config = TransformerConfig { num_hidden_layers: 1, max_seq_len: 8, ..TransformerConfig::default() };
    let mut names: Vec<(String, Vec<usize>)> = vec![
        ("tok_emb.weight".to_string(), vec![512, 512]),
        ("pos_emb.weight".to_string(), vec![8, 512]),
        ("norm.weight".to_string(), vec![512]),
        ("norm.bias".to_string(), vec![512]),
        ("output.weight".to_string(), vec![512, 512]),
    ];
    for name in ["attention.wq", "attention.wk", "attention.wv", "attention.wo", "ffn.w1", "ffn.w2"] {
        names.push((format!("layers.0.{name}.weight"), vec![512, 512]));
    }
    for name in ["attn_norm", "ffn_norm"] {
        names.push((format!("layers.0.{name}.weight"), vec![512]));
        names.push((format!("layers.0.{name}.bias"), vec![512]));
    }
    let t = Transformer::new(config, &Weights::new(infos(&names))).ok().unwrap();
    assert_eq!(t.layers.len(), 1);
    assert_eq!(t.layers[0].w2.bias, None);
    assert_eq!(t.output_projection.weight, 4);
    names[1].1[0] = 7;
    assert_eq!(
        Transformer::new(config, &Weights::new(infos(&names))).err(),
        Some("pos_emb.weight".to_string())
    );
    names[1].1[0] = 8;
    names.retain(|(name, _)| name != "layers.0.attention.wo.weight");
    assert_eq!(
        Transformer::new(config, &Weights::new(infos(&names))).err(),
        Some("layers.0.attention.wo.weight".to_string())
    );
}

#[test]
fn transformers_have_their_sizes() {
    let config = TransformerConfig::default();
    assert_eq!((config.vocab_size, config.hidden_size, config.max_seq_len), (512, 512, 1024));
    assert_eq!(fused_offsets(512), (0, 512, 1024));
    assert!(check_layers(1).is_ok());
    assert!(matches!(
        check_layers(0),
        Err(Error::InferenceError(m)) if m == "No transformer layers available"
    ));
}

fn extractor_names() -> Vec<(String, Vec<usize>)> {
    let mut names: Vec<(String, Vec<usize>)> = Vec::new();
    let kernels = [10, 3, 3, 3, 3, 2, 2];
    for i in 0..7 {
        let channels = if i == 0 { 1 } else { 512 };
        names.push((
            format!("feature_extractor.conv_layers.{i}.conv.weight"),
            vec![512, channels, kernels[i]],
        ));
    }
    let affine = |prefix: String, weight: Vec<usize>, bias: usize| {
        vec![(format!("{prefix}.weight"), weight), (format!("{prefix}.bias"), vec![bias])]
    };
    names.extend(affine("feature_extractor.conv_layers.0.layer_norm".to_string(), vec![512], 512));
    names.extend(affine("feature_projection.layer_norm".to_string(), vec![512], 512));
    names.extend(affine("feature_projection.projection".to_string(), vec![768, 512], 768));
    names.extend(affine("encoder.pos_conv_embed.conv".to_string(), vec![768, 48, 128], 768));
    names.extend(affine("encoder.layer_norm".to_string(), vec![768], 768));
    for i in 0..12 {
        let layer = format!("encoder.layers.{i}");
        for part in ["q_proj", "k_proj", "v_proj", "out_proj"] {
            names.extend(affine(format!("{layer}.attention.{part}"), vec![768, 768], 768));
        }
        names.extend(affine(format!("{layer}.layer_norm"), vec![768], 768));
        names.extend(affine(format!("{layer}.final_layer_norm"), vec![768], 768));
        names.extend(affine(
            format!("{layer}.feed_forward.intermediate_dense"),
            vec![3072, 768],
            3072,
        ));
        names.extend(affine(format!("{layer}.feed_forward.output_dense"), vec![768, 3072], 768));
    }
    names
}

#[test]
fn a_speech_extractor_has_fifty_frames_a_second() {
    let w = Weights::new(infos(&extractor_names()));
    let model = Wav2Vec2Model::load(&w).ok().unwrap();
    assert_eq!(model.cnn.len(), 7);
    assert_eq!(model.layers.len(), 12);
    assert!(model.cnn[0].norm_weight().is_some());
    assert!(model.cnn[1].norm_weight().is_none());
    let step: usize = model.cnn.iter().map(|layer| layer.stride).product();
    assert_eq!(16000 / step, 50);
}

#[test]
fn a_speech_extractor_refuses_other_shapes() {
    let mut names = extractor_names();
    let key = "encoder.layers.11.attention.q_proj.weight".to_string();
    for (name, dims) in names.iter_mut() {
        if *name == key {
            *dims = vec![768, 767];
        }
    }
    let w = Weights::new(infos(&names));
    assert_eq!(Wav2Vec2Model::load(&w).err(), Some(key));
    names.retain(|(name, _)| name != "encoder.layer_norm.bias");
    let w = Weights::new(infos(&names));
    assert_eq!(Wav2Vec2Model::load(&w).err(), Some("encoder.layer_norm.bias".to_string()));
}

#[test]
fn a_flow_backwards_undoes_its_steps() {
    let w = weights(&[
        ("flow.flows.0.pre.weight", &[192, 96, 1]),
        ("flow.flows.0.post.weight", &[96, 192, 1]),
        ("flow.flows.0.enc.in_layers.0.weight_g", &[384, 1, 1]),
        ("flow.flows.0.enc.in_layers.0.weight_v", &[384, 192, 5]),
        ("flow.flows.0.enc.res_skip_layers.0.weight_g", &[384, 1, 1]),
        ("flow.flows.0.enc.res_skip_layers.0.weight_v", &[384, 192, 1]),
        ("flow.flows.2.pre.weight", &[192, 96, 1]),
        ("flow.flows.2.post.weight", &[96, 192, 1]),
    ]);
    let block = ResidualCouplingBlock::load(&w, "flow.flows").ok().unwrap();
    assert_eq!(block.layers.len(), 2);
    assert_eq!(block.layers[0].half_channels, 96);
    assert_eq!(block.layers[0].enc.in_layers[0].padding, 2);
    assert!(block.layers[1].enc.in_layers.is_empty());
    assert!(!block.layers[0].splits_scales(96));
    assert!(block.layers[0].splits_scales(192));
    assert!(!block.layers[0].enc.feeds_next(0));
    assert_eq!(block.layers[0].enc.condition_offset(0, 192), 0);
    assert_eq!(
        block.steps(false),
        vec![FlowStep::Layer(0), FlowStep::Flip, FlowStep::Layer(1), FlowStep::Flip]
    );
    let mut backwards = block.steps(true);
    backwards.reverse();
    assert_eq!(backwards, block.steps(false));
}

#[test]
fn flipping_twice_gives_the_channels_back() {
    let places = flip_indices(4);
    assert_eq!(places, vec![3, 2, 1, 0]);
    let twice: Vec<i64> = places.iter().map(|&p| places[p as usize]).collect();
    assert_eq!(twice, vec![0, 1, 2, 3]);
}

#[test]
fn gated_convolutions_stop_at_a_gap_or_skip_it() {
    let w = weights(&[
        ("e.in_layers.0.weight_g", &[4, 1, 1]),
        ("e.in_layers.0.weight_v", &[4, 4, 3]),
        ("e.in_layers.2.weight_g", &[4, 1, 1]),
        ("e.in_layers.2.weight_v", &[4, 4, 3]),
        ("e.cond_layer.weight_g", &[4, 1, 1]),
        ("e.cond_layer.weight_v", &[4, 4, 1]),
    ]);
    let run = WN::load(&w, "e").ok().unwrap();
    assert_eq!(run.in_layers.len(), 1);
    assert!(run.cond_layer.is_some());
    let sparse = load_sparse_wn(&w, "e", 16).ok().unwrap();
    assert_eq!(sparse.n_layers, 2);
}

#[test]
fn posterior_encoders_need_a_projection() {
    let w = weights(&[("enc_q.pre.weight", &[192, 1025, 1]), ("enc_q.proj.weight", &[384, 192, 1])]);
    assert_eq!(EncQ::load(&w, 192).ok().unwrap().proj.padding, 0);
    let w = weights(&[("enc_q.pre.weight", &[192, 1025, 1])]);
    assert_eq!(EncQ::load(&w, 192).err(), Some("enc_q.proj.weight".to_string()));
}

fn decoder_names() -> Vec<(String, Vec<usize>)> {
    let mut names = vec![
        ("dec.conv_pre.weight".to_string(), vec![512, 192, 7]),
        ("dec.conv_post.weight".to_string(), vec![1, 16, 7]),
        ("dec.cond.weight_g".to_string(), vec![512, 1, 1]),
        ("dec.cond.weight_v".to_string(), vec![512, 1024, 1]),
    ];
    for (i, kernel) in [16, 16, 8, 2, 2].into_iter().enumerate() {
        names.push((format!("dec.ups.{i}.weight_g"), vec![512, 1, 1]));
        names.push((format!("dec.ups.{i}.weight_v"), vec![512, 256, kernel]));
    }
    for i in 0..15 {
        for part in ["convs1", "convs2"] {
            for j in 0..3 {
                names.push((format!("dec.resblocks.{i}.{part}.{j}.weight_g"), vec![256, 1, 1]));
                names.push((format!("dec.resblocks.{i}.{part}.{j}.weight_v"), vec![256, 256, 3]));
            }
        }
    }
    names
}

#[test]
fn vocoders_upsample_by_their_place() {
    let w = Weights::new(infos(&decoder_names()));
    let decoder = Decoder::load(&w).ok().unwrap();
    let rates: Vec<usize> = decoder.ups.iter().map(|up| up.upsample_factor).collect();
    assert_eq!(rates, vec![10, 8, 2, 2, 2]);
    assert_eq!(rates.iter().product::<usize>(), 640);
    assert_eq!(decoder.resblocks.len(), 15);
    assert_eq!(decoder.gin_channels, 512);
    assert_eq!(decoder.conv_pre.padding, 3);
    assert_eq!(decoder.blocks_behind(1), (3, 6));
    assert_eq!(upsample_padding(16, 10), 3);
}

#[test]
fn vocoders_name_what_is_missing() {
    let mut names = decoder_names();
    names.retain(|(name, _)| name != "dec.resblocks.4.convs2.1.weight_g");
    let w = Weights::new(infos(&names));
    assert_eq!(Decoder::load(&w).err(), Some("dec.resblocks.4.convs2.1.weight_g".to_string()));
}

#[test]
fn bigvgan_is_found_by_name() {
    let w = weights(&[
        ("conv_pre.weight_g", &[8, 1, 1]),
        ("conv_pre.weight_v", &[8, 100, 7]),
        ("conv_post.weight_g", &[1, 1, 1]),
        ("conv_post.weight_v", &[1, 8, 7]),
        ("ups.0.0.weight_g", &[8, 1, 1]),
        ("ups.0.0.weight_v", &[8, 4, 8]),
        ("resblocks.0.convs1.0.weight_g", &[4, 1, 1]),
        ("resblocks.0.convs1.0.weight_v", &[4, 4, 3]),
        ("resblocks.0.activations.0.act.alpha", &[4]),
        ("resblocks.0.activations.0.act.beta", &[4]),
        ("resblocks.0.activations.2.downsample.lowpass.filter", &[1, 1, 12]),
        ("activation_post.act.alpha", &[4]),
        ("activation_post.act.beta", &[4]),
    ]);
    let model = BigVGAN::load(&w).ok().unwrap();
    assert_eq!(model.ups.len(), 1);
    assert_eq!(model.resblocks.len(), 1);
    assert_eq!(model.resblocks[0].filters, vec![None, None, Some(10), None, None, None]);
    assert_eq!(model.activation_post.downsample, None);
    let w = weights(&[("conv_pre.weight_g", &[8, 1, 1])]);
    assert_eq!(BigVGAN::load(&w).err(), Some("conv_pre.weight_v".to_string()));
}

#[test]
fn the_convolutions_of_a_block_are_loaded_in_turn() {
    let w = weights(&[
        ("b.convs1.0.weight_g", &[4, 1, 1]),
        ("b.convs1.0.weight_v", &[4, 4, 3]),
        ("b.convs2.0.weight_v", &[4, 4, 3]),
        ("b.convs1.1.weight_v", &[4, 4, 3]),
    ]);
    assert_eq!(ResidualBlock::load(&w, "b").err(), Some("b.convs2.0.weight_g".to_string()));
}

#[test]
fn spectrograms_have_three_dimensions() {
    assert!(check_spectrogram(&vec![1, 100, 20]).is_ok());
    assert!(check_spectrogram(&vec![100, 20]).is_err());
    assert_eq!(snake_shape(&vec![1, 4, 9], &vec![4]), SnakeShape::PerChannel);
    assert_eq!(snake_shape(&vec![4, 9], &vec![4]), SnakeShape::Single);
    assert_eq!(snake_shape(&vec![1, 4, 9], &vec![1, 4]), SnakeShape::AsIs);
    assert_eq!(snake_shape(&vec![1, 4, 9], &vec![24]), SnakeShape::Single);
    assert_eq!(filter_padding(12), (6, 5));
    assert_eq!(filter_padding(1), (0, 0));
}

#[test]
fn attention_heads_go_by_the_relative_embedding() {
    let w = weights(&[
        ("a.conv_q.weight", &[192, 192, 1]),
        ("a.conv_k.weight", &[192, 192, 1]),
        ("a.conv_v.weight", &[192, 192, 1]),
        ("a.conv_o.weight", &[192, 192, 1]),
        ("a.emb_rel_k", &[1, 9, 96]),
    ]);
    let attention = SelfAttention::load(&w, "a").unwrap();
    assert_eq!((attention.n_heads, attention.head_dim), (2, 96));
    assert_eq!(attention.emb_rel_k, Some(4));
    assert_eq!(attention.emb_rel_v, None);
    assert_eq!(SelfAttention::load(&w, "b").err(), Some("b.conv_q.weight".to_string()));
}

#[test]
fn relative_scores_are_placed_and_taken_back() {
    // three places: the distances from -2 to 2
    let relative = bits(&[
        0., 0., 1., 2., 3., //
        0., 4., 5., 6., 0., //
        7., 8., 9., 0., 0.,
    ]);
    let absolute = relative_to_absolute(&relative, 1, 3);
    assert_eq!(floats(&absolute), [1., 2., 3., 4., 5., 6., 7., 8., 9.]);
    assert_eq!(floats(&absolute_to_relative(&absolute, 1, 3)), floats(&relative));
}

#[test]
fn relative_embeddings_are_cut_or_padded() {
    let slice = relative_slice(9, 3);
    assert_eq!((slice.pad, slice.start, slice.len), (0, 2, 5));
    let slice = relative_slice(9, 7);
    assert_eq!((slice.pad, slice.start, slice.len), (2, 0, 13));
}

#[test]
fn fusions_are_found_by_name() {
    let mut names: Vec<(String, Vec<usize>)> = Vec::new();
    for part in ["conv_q", "conv_k", "conv_v", "conv_o"] {
        names.push((format!("m.cross_attention.{part}.weight"), vec![512, 512, 1]));
        names.push((format!("m.cross_attention.{part}.bias"), vec![512]));
    }
    for part in ["c_pre", "text_pre", "c_post"] {
        names.push((format!("m.{part}.weight"), vec![512, 192, 1]));
        names.push((format!("m.{part}.bias"), vec![512]));
    }
    let w = Weights::new(infos(&names));
    let fusion = mrte::MRTE::load(&w, "m").unwrap();
    assert_eq!(fusion.cross_attention.n_heads, 4);
    assert_eq!(fusion.cross_attention.k_channels, 128);
    let optional = sovits_encp::MRTE::load(&w, "m").unwrap();
    assert!(optional.c_pre.is_some());
    let w = weights(&[]);
    assert!(mrte::MRTE::load(&w, "m").is_err());
}

#[test]
fn style_encoders_are_found_by_name() {
    let w = weights(&[
        ("ref_enc.spectral.0.fc.weight", &[128, 704]),
        ("ref_enc.spectral.0.fc.bias", &[128]),
        ("ref_enc.spectral.3.fc.weight", &[128, 128]),
        ("ref_enc.spectral.3.fc.bias", &[128]),
        ("ref_enc.temporal.0.conv1.conv.weight", &[256, 128, 5]),
        ("ref_enc.temporal.0.conv1.conv.bias", &[256]),
        ("ref_enc.temporal.1.conv1.conv.weight", &[256, 128, 5]),
        ("ref_enc.temporal.1.conv1.conv.bias", &[256]),
        ("ref_enc.slf_attn.w_qs.weight", &[128, 128]),
        ("ref_enc.slf_attn.w_ks.weight", &[128, 128]),
        ("ref_enc.slf_attn.w_vs.weight", &[128, 128]),
        ("ref_enc.slf_attn.fc.weight", &[128, 128]),
        ("ref_enc.slf_attn.fc.bias", &[128]),
        ("ref_enc.fc.fc.weight", &[512, 128]),
        ("ref_enc.fc.fc.bias", &[512]),
    ]);
    let enc = RefEnc::load(&w).unwrap();
    assert_eq!((enc.temporal_0.kernel_size, enc.temporal_0.padding), (5, 2));
    assert_eq!((enc.self_attn.n_heads, enc.self_attn.head_dim), (2, 64));
}

#[test]
fn speech_models_name_what_is_missing_first() {
    assert_eq!(
        SoVITSModel::load(&weights(&[])).err(),
        Some("quantizer.vq.layers.0._codebook.embed".to_string())
    );
}

#[test]
fn synthesis_needs_both_kinds_of_tokens() {
    assert!(check_tokens(&vec![1], &vec![2]).is_ok());
    assert!(check_tokens(&Vec::new(), &vec![2]).is_err());
    assert!(check_tokens(&vec![1], &Vec::new()).is_err());
}

#[test]
fn dumps_have_one_value_a_line() {
    assert_eq!(token_dump(&vec![5, 7]), "2\n5\n7\n");
    assert_eq!(
        tensor_dump(&vec![1, 2], &vec!["0.5".to_string(), "-1".to_string()]),
        "1,2\n0.5\n-1\n"
    );
    assert_eq!(debug_file("zp"), "sovits_debug_zp.txt");
    assert_eq!(debug_stages().len(), 7);
}

#[test]
fn speech_is_followed_by_silence() {
    let samples = with_tail_silence(bits(&[0.5]));
    assert_eq!(samples.len(), 1 + TAIL_SILENCE);
    assert_eq!(floats(&samples[..2]), [0.5, 0.0]);
    assert_eq!(sample_kind(true, 32), SampleKind::Float);
    assert_eq!(sample_kind(false, 16), SampleKind::Int16);
    assert_eq!(sample_kind(false, 32), SampleKind::Int32);
}

#[test]
fn content_tokenizers_step_by_their_width() {
    let w = weights(&[
        ("ssl_proj.weight", &[768, 768, 2]),
        ("ssl_proj.bias", &[768]),
        ("quantizer.vq.layers.0._codebook.embed", &[1024, 768]),
    ]);
    assert_eq!(SemanticTokenizer::load(&w).unwrap().stride, 2);
    let w = weights(&[
        ("ssl_proj.weight", &[768, 768, 1]),
        ("ssl_proj.bias", &[768]),
        ("quantizer.vq.layers.0._codebook.embed", &[1024, 768]),
    ]);
    assert_eq!(SemanticTokenizer::load(&w).unwrap().stride, 1);
    let w = weights(&[("ssl_proj.weight", &[768, 768, 1])]);
    assert_eq!(SemanticTokenizer::load(&w).err(), Some("ssl_proj.bias".to_string()));
}

#[test]
fn text_models_find_their_tokenizer() {
    let model = BertModel::load_with_device("models/bert.safetensors", Device::Cpu, true);
    assert_eq!(model.weights(), "models/bert.safetensors");
    assert_eq!(model.tokenizer(), "models/tokenizer.json");
    assert_eq!(model.max_length(), MAX_TOKENS);
    assert_eq!(Model::device(&model), "cpu");
    assert_eq!(BertModel::tokenizer_beside("bert.safetensors"), "tokenizer.json");
    assert_eq!(
        canonical_name("encoder.layer.0.output.layer_norm.weight"),
        "encoder.layer.0.output.LayerNorm.weight"
    );
}

#[test]
fn models_move_only_to_devices_that_open() {
    let mut placed = Placement::new(Device::Cpu);
    assert!(placed.to_device("tpu").is_ok());
    assert_eq!(placed.device(), "cpu");
    assert!(placed.to_device("cpu").is_ok());
    assert!(placed.moved(Err("no driver".to_string())).is_err());
    assert_eq!(placed.device(), "cpu");
    assert!(placed.moved(Ok(Device::Cuda)).is_ok());
    assert_eq!(placed.device(), "cuda");
}

#[test]
fn matrices_are_read_column_by_column() {
    assert!(is_transposed(b'T') && is_transposed(b't'));
    assert!(!is_transposed(b'N'));
    assert_eq!(matrix_index(false, 1, 2, 3), 7);
    assert_eq!(matrix_index(true, 1, 2, 3), 5);
}

#[test]
fn texts_become_rows_of_tokens() {
    let tokenizer = tokenizers::Tokenizer::from_bytes(
        r#"{
            "version": "1.0", "truncation": null, "padding": null, "added_tokens": [],
            "normalizer": null, "pre_tokenizer": {"type": "Whitespace"},
            "post_processor": null, "decoder": null,
            "model": {"type": "WordLevel", "vocab": {"a": 3, "b": 7, "[UNK]": 0}, "unk_token": "[UNK]"}
        }"#,
    )
    .unwrap();
    let rows = tokenize(&tokenizer, "b a c").ok().unwrap();
    assert_eq!(rows.ids, vec![7, 3, 0]);
    assert_eq!(rows.kinds, vec![0, 0, 0]);
    assert_eq!(rows.mask, vec![1, 1, 1]);
    match token_rows(Err("no".to_string())) {
        Err(e) => assert_eq!(e.message(), "Inference failed: tokenize: no"),
        Ok(_) => panic!("no tokens were made"),
    }
}

/// The parts of a tokenizer's file that a test changes.
struct Parts {
    truncation: &'static str,
    padding: &'static str,
    added: &'static str,
    normalizer: &'static str,
    splitter: &'static str,
    processor: &'static str,
    model: &'static str,
}

fn bert_parts() -> Parts {
    Parts {
        truncation: "null",
        padding: "null",
        added: r#"{"id": 2, "content": "[MASK]", "single_word": false, "lstrip": true,
            "rstrip": false, "normalized": false, "special": true}"#,
        normalizer: r#"{"type": "BertNormalizer", "clean_text": true,
            "handle_chinese_chars": true, "strip_accents": null, "lowercase": true}"#,
        splitter: r#"{"type": "BertPreTokenizer"}"#,
        processor: r#"{"type": "TemplateProcessing",
            "single": [{"SpecialToken": {"id": "[CLS]", "type_id": 0}},
                {"Sequence": {"id": "A", "type_id": 0}},
                {"SpecialToken": {"id": "[SEP]", "type_id": 0}}],
            "pair": [{"Sequence": {"id": "A", "type_id": 0}}, {"Sequence": {"id": "B", "type_id": 1}}],
            "special_tokens": {
                "[CLS]": {"id": "[CLS]", "ids": [3], "tokens": ["[CLS]"]},
                "[SEP]": {"id": "[SEP]", "ids": [4], "tokens": ["[SEP]"]}}}"#,
        model: r#"{"type": "WordPiece", "unk_token": "[UNK]", "continuing_subword_prefix": "\u0023\u0023",
            "max_input_chars_per_word": 100,
            "vocab": {"[UNK]": 1, "[MASK]": 2, "[CLS]": 3, "[SEP]": 4, "你": 5, "好": 6, "ab": 7, "\u0023\u0023c": 8}}"#,
    }
}

fn tokenizer_of(parts: Parts) -> tokenizers::Tokenizer {
    let file = format!(
        r#"{{"version": "1.0", "truncation": {}, "padding": {}, "added_tokens": [{}],
        "normalizer": {}, "pre_tokenizer": {}, "post_processor": {}, "decoder": null, "model": {}}}"#,
        parts.truncation,
        parts.padding,
        parts.added,
        parts.normalizer,
        parts.splitter,
        parts.processor,
        parts.model
    );
    tokenizers::Tokenizer::from_bytes(file).unwrap()
}

fn refuses(parts: Parts) -> bool {
    match tokenize(&tokenizer_of(parts), "你好") {
        Err(e) => {
            e.message() == "Inference failed: tokenize: the tokenizer does not take every text"
        }
        Ok(_) => false,
    }
}

#[test]
fn texts_become_tokens_of_a_bert_model() {
    let tokenizer = tokenizer_of(bert_parts());
    assert!(is_fit(&tokenizer));
    let rows = tokenize(&tokenizer, "你好 ABC [MASK] é").ok().unwrap();
    assert_eq!(rows.ids, vec![3, 5, 6, 7, 8, 2, 1, 4]);
    assert_eq!(rows.kinds, vec![0; 8]);
    assert_eq!(rows.mask, vec![1; 8]);
    assert_eq!(tokenize(&tokenizer, "").ok().unwrap().ids, vec![3, 4]);
    let cut = tokenizer_of(Parts {
        truncation: r#"{"max_length": 3, "strategy": "LongestFirst", "stride": 0}"#,
        padding: r#"{"strategy": {"Fixed": 5}, "direction": "Right", "pad_to_multiple_of": null,
            "pad_id": 0, "pad_type_id": 0, "pad_token": "[PAD]"}"#,
        ..bert_parts()
    });
    let rows = tokenize(&cut, "你好").ok().unwrap();
    assert_eq!(rows.ids, vec![3, 5, 4, 0, 0]);
    assert_eq!(rows.mask, vec![1, 1, 1, 0, 0]);
    let framed = r#"{"type": "BertProcessing", "sep": ["[SEP]", 4], "cls": ["[CLS]", 3]}"#;
    let plain = tokenizer_of(Parts { processor: framed, normalizer: "null", ..bert_parts() });
    assert_eq!(tokenize(&plain, "你").ok().unwrap().ids, vec![3, 5, 4]);
    let unknown = tokenizer_of(Parts {
        model: r#"{"type": "WordLevel", "vocab": {"a": 1}, "unk_token": "[UNK]"}"#,
        ..bert_parts()
    });
    match tokenize(&unknown, "b") {
        Err(e) => assert_eq!(
            e.message(),
            "Inference failed: tokenize: WordLevel error: Missing [UNK] token from the vocabulary"
        ),
        Ok(_) => panic!("the word is not known"),
    }
}

#[test]
fn tokenizers_that_do_not_take_every_text_are_refused() {
    assert!(refuses(Parts {
        truncation: r#"{"max_length": 3, "strategy": "LongestFirst", "stride": 1}"#,
        ..bert_parts()
    }));
    assert!(refuses(Parts {
        truncation: r#"{"max_length": 1, "strategy": "LongestFirst", "stride": 0}"#,
        ..bert_parts()
    }));
    assert!(refuses(Parts {
        padding: r#"{"strategy": {"Fixed": 16777217}, "direction": "Right",
            "pad_to_multiple_of": null, "pad_id": 0, "pad_type_id": 0, "pad_token": "[PAD]"}"#,
        ..bert_parts()
    }));
    assert!(refuses(Parts {
        processor: r#"{"type": "TemplateProcessing",
            "single": [{"SpecialToken": {"id": "[CLS]", "type_id": 0}}, {"Sequence": {"id": "A", "type_id": 0}}],
            "pair": [], "special_tokens": {}}"#,
        ..bert_parts()
    }));
    assert!(refuses(Parts {
        processor: r#"{"type": "TemplateProcessing",
            "single": [{"Sequence": {"id": "B", "type_id": 0}}], "pair": [], "special_tokens": {}}"#,
        ..bert_parts()
    }));
    assert!(refuses(Parts {
        added: r#"{"id": 2, "content": "[MASK]", "single_word": false, "lstrip": true,
            "rstrip": true, "normalized": false, "special": true}"#,
        ..bert_parts()
    }));
    assert!(refuses(Parts {
        added: r#"{"id": 9, "content": "\u0001", "single_word": false, "lstrip": false,
            "rstrip": false, "normalized": true, "special": false}"#,
        ..bert_parts()
    }));
    assert!(refuses(Parts { normalizer: r#"{"type": "NFC"}"#, ..bert_parts() }));
    assert!(refuses(Parts { splitter: r#"{"type": "Digits", "individual_digits": true}"#, ..bert_parts() }));
    assert!(refuses(Parts {
        model: r#"{"type": "BPE", "vocab": {"a": 0}, "merges": []}"#,
        ..bert_parts()
    }));
}

#[test]
fn what_a_tokenizer_was_set_up_with_is_weighed() {
    assert!(has_room(None, Some(2)));
    assert!(has_room(Some((2, 9)), Some(2)));
    assert!(!has_room(Some((1, 0)), Some(2)));
    assert!(has_room(Some((5, 2)), Some(2)));
    assert!(!has_room(Some((5, 3)), Some(2)));
    assert!(!has_room(Some((5, 5)), None));
    assert!(is_short_padding(None));
    assert!(is_short_padding(Some((Some(16_777_216), None))));
    assert!(!is_short_padding(Some((None, Some(16_777_217)))));
    assert!(is_lasting("[CLS]") && is_lasting("北京") && !is_lasting("\u{1}\u{301}"));
    assert!(is_one_sided(&vec![(true, false), (false, false)]));
    assert!(!is_one_sided(&vec![(true, false), (false, true)]));
    let names = vec!["[CLS]".to_string()];
    let known = || Piece::Token("[CLS]".to_string());
    assert!(is_single_template(&vec![known(), Piece::First], &names));
    assert!(!is_single_template(&vec![known(), Piece::Second], &names));
    assert!(!is_single_template(&vec![Piece::Token("[SEP]".to_string())], &names));
}

#[test]
fn samples_are_written_line_by_line() {
    assert_eq!(sample_dump(&vec!["0.5".to_string(), "-1".to_string()]), "0.5\n-1\n");
}
