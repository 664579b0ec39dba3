//! Conversion of checkpoints: which tensors are kept, under which names, and with what metadata.

use crate::paths::{
    extension, extension_of, extensions_follow_the_last_point, file_name, find_last,
    lemma_last_index_is, last_index, lemma_last_index, name_of_file,
    trimmed, trimmed_path,
};
use crate::strings::{
    chars_of, decimal, decimal_string, decimals_spell_their_number, join, join_strings,
    lemma_views_push, matches_at, number_in, numbers_are_read_back, occurs_at, parse_number, same, string_between, views,
};
use vstd::prelude::*;

verus! {

/// The kinds of checkpoints that are converted as they are.
#[derive(Debug, Clone, Copy, PartialEq, Eq, Structural)]
pub enum ModelKind {
    Gpt,
    Sovits,
}

/// A tensor of a checkpoint: its name and the lengths of its dimensions.
pub struct TensorInfo {
    pub name: String,
    pub dims: Vec<usize>,
}

/// The names of tensors.
pub open spec fn names_of(tensors: Seq<TensorInfo>) -> Seq<Seq<char>> {
    tensors.map_values(|t: TensorInfo| t.name@)
}

/// The place of the first tensor of a name, or the number of tensors.
pub open spec fn place_of_name(names: Seq<Seq<char>>, name: Seq<char>) -> int
    decreases names.len(),
{
    if names.len() == 0 {
        0
    } else if names[0] == name {
        0
    } else {
        1 + place_of_name(names.skip(1), name)
    }
}

proof fn lemma_place_of_name(names: Seq<Seq<char>>, name: Seq<char>)
    ensures
        0 <= place_of_name(names, name) <= names.len(),
        place_of_name(names, name) < names.len() <==> names.contains(name),
        place_of_name(names, name) < names.len() ==> names[place_of_name(names, name)] == name,
    decreases names.len(),
{
    if names.len() > 0 {
        if names[0] == name {
            assert(names.contains(name));
        } else {
            let rest = names.skip(1);
            lemma_place_of_name(rest, name);
            if rest.contains(name) {
                let i = choose|i: int| 0 <= i < rest.len() && rest[i] == name;
                assert(names[i + 1] == name);
            }
            if names.contains(name) {
                let i = choose|i: int| 0 <= i < names.len() && names[i] == name;
                assert(rest[i - 1] == name);
            }
        }
    }
}

/// Finds the first of some names that is a given one.
pub fn find_name(names: &Vec<String>, name: &str) -> (r: Option<usize>)
    ensures
        match r {
            Some(i) => i == place_of_name(views(names@), name@) && i < names@.len()
                && names@[i as int]@ == name@,
            None => !views(names@).contains(name@),
        },
        r is Some <==> views(names@).contains(name@),
{
    let ghost all = views(names@);
    let mut i: usize = 0;
    assert(all.skip(0) =~= all);
    proof {
        lemma_place_of_name(all, name@);
    }
    while i < names.len()
        invariant
            all == views(names@),
            i <= names@.len(),
            place_of_name(all, name@) == i + place_of_name(all.skip(i as int), name@),
            place_of_name(all, name@) < all.len() <==> all.contains(name@),
        decreases names@.len() - i,
    {
        assert(all.skip(i as int)[0] == names@[i as int]@);
        assert(all.skip(i as int).skip(1) =~= all.skip(i + 1));
        if same(names[i].as_str(), name) {
            assert(all[i as int] == name@);
            return Some(i);
        }
        i = i + 1;
    }
    None
}

/// Finds a tensor that a conversion needs.
pub fn find_tensor(names: &Vec<String>, name: &str) -> (r: Result<usize, String>)
    ensures
        match r {
            Ok(i) => i == place_of_name(views(names@), name@) && i < names@.len()
                && names@[i as int]@ == name@,
            Err(e) => !views(names@).contains(name@) && e@ == "checkpoint is missing "@ + name@,
        },
{
    match find_name(names, name) {
        Some(i) => Ok(i),
        None => {
            let mut e = "checkpoint is missing ".to_owned();
            e.push_str(name);
            Err(e)
        },
    }
}

/// The names of the tensors.
fn tensor_names(tensors: &Vec<TensorInfo>) -> (r: Vec<String>)
    ensures
        views(r@) == names_of(tensors@),
{
    let mut r: Vec<String> = Vec::new();
    for i in 0..tensors.len()
        invariant
            views(r@) == names_of(tensors@).take(i as int),
    {
        let name = tensors[i].name.as_str().to_owned();
        proof {
            lemma_views_push(r@, name);
            assert(names_of(tensors@).take(i + 1) =~= names_of(tensors@).take(i as int).push(
                names_of(tensors@)[i as int],
            ));
        }
        r.push(name);
    }
    assert(names_of(tensors@).take(tensors@.len() as int) =~= names_of(tensors@));
    r
}

/// The version that the first two bytes of a checkpoint stand for.
pub open spec fn version_of_header(bytes: Seq<u8>) -> Option<Seq<char>> {
    if bytes.len() >= 2 && bytes[0] == 48 {
        match bytes[1] {
            48u8 => Some("v1"@),
            49u8 => Some("v2"@),
            50u8 => Some("v3"@),
            51u8 => Some("v3"@),
            52u8 => Some("v4"@),
            53u8 => Some("v2Pro"@),
            54u8 => Some("v2ProPlus"@),
            _ => None,
        }
    } else {
        None
    }
}

/// The version that the first two bytes of a checkpoint stand for.
pub fn header_version(bytes: &Vec<u8>) -> (r: Option<&'static str>)
    ensures
        match r {
            Some(v) => version_of_header(bytes@) == Some(v@),
            None => version_of_header(bytes@) is None,
        },
{
    if bytes.len() < 2 || bytes[0] != 48 {
        return None;
    }
    match bytes[1] {
        48u8 => Some("v1"),
        49u8 => Some("v2"),
        50u8 => Some("v3"),
        51u8 => Some("v3"),
        52u8 => Some("v4"),
        53u8 => Some("v2Pro"),
        54u8 => Some("v2ProPlus"),
        _ => None,
    }
}

/// A checkpoint whose first two bytes stand for a version holds an archive once they are those
/// of an archive again; any other checkpoint is read as it is.
pub fn patched_checkpoint(bytes: &Vec<u8>) -> (r: Option<Vec<u8>>)
    ensures
        match r {
            Some(patched) => version_of_header(bytes@) is Some && patched@ == bytes@.update(
                0,
                80u8,
            ).update(1, 75u8),
            None => version_of_header(bytes@) is None,
        },
{
    match header_version(bytes) {
        Some(_) => {
            let mut patched: Vec<u8> = Vec::new();
            patched.push(80);
            patched.push(75);
            for i in 2..bytes.len()
                invariant
                    bytes@.len() >= 2,
                    patched@ == bytes@.update(0, 80u8).update(1, 75u8).take(i as int),
            {
                let ghost before = patched@;
                patched.push(bytes[i]);
                assert(patched@ =~= bytes@.update(0, 80u8).update(1, 75u8).take(i + 1));
            }
            assert(patched@ =~= bytes@.update(0, 80u8).update(1, 75u8));
            Some(patched)
        },
        None => None,
    }
}

/// The version of a SoVITS checkpoint: by its first two bytes; else by the tensors that only
/// some versions have, and by the number of its symbols.
pub open spec fn version_of(bytes: Seq<u8>, tensors: Seq<TensorInfo>) -> Seq<char> {
    let names = names_of(tensors);
    match version_of_header(bytes) {
        Some(v) => v,
        None => if names.contains("ge_to512.weight"@) && names.contains("sv_emb.weight"@) {
            "v2Pro"@
        } else if names.contains("enc_p.text_embedding.weight"@) && {
            let dims = tensors[place_of_name(names, "enc_p.text_embedding.weight"@)].dims@;
            dims.len() > 0 && dims[0] == 322
        } {
            "v1"@
        } else {
            "v2"@
        },
    }
}

/// The version of a SoVITS checkpoint.
pub fn sovits_version(bytes: &Vec<u8>, tensors: &Vec<TensorInfo>) -> (r: &'static str)
    ensures
        r@ == version_of(bytes@, tensors@),
{
    match header_version(bytes) {
        Some(v) => return v,
        None => {},
    }
    let names = tensor_names(tensors);
    assert(views(names@).len() == names_of(tensors@).len());
    if find_name(&names, "ge_to512.weight").is_some() && find_name(
        &names,
        "sv_emb.weight",
    ).is_some() {
        return "v2Pro";
    }
    match find_name(&names, "enc_p.text_embedding.weight") {
        Some(i) => {
            if tensors[i].dims.len() > 0 && tensors[i].dims[0] == 322 {
                "v1"
            } else {
                "v2"
            }
        },
        None => "v2",
    }
}

/// The tensor without which a checkpoint is not of its kind.
pub open spec fn required_tensor(kind: ModelKind) -> Seq<char> {
    match kind {
        ModelKind::Gpt => "model.ar_text_embedding.word_embeddings.weight"@,
        ModelKind::Sovits => "enc_p.text_embedding.weight"@,
    }
}

/// Pairs by their views.
pub open spec fn pairs(entries: Seq<(String, String)>) -> Seq<(Seq<char>, Seq<char>)> {
    entries.map_values(|e: (String, String)| (e.0@, e.1@))
}

/// An entry of metadata.
fn entry(key: &str, value: &str) -> (r: (String, String))
    ensures
        r.0@ == key@,
        r.1@ == value@,
{
    (key.to_owned(), value.to_owned())
}

/// The metadata of a model with which a checkpoint is written.
pub open spec fn metadata_of(kind: ModelKind, bytes: Seq<u8>, tensors: Seq<TensorInfo>) -> Seq<
    (Seq<char>, Seq<char>),
> {
    match kind {
        ModelKind::Gpt => seq![("model_type"@, "gpt"@)],
        ModelKind::Sovits => seq![
            ("model_type"@, "sovits"@),
            ("model_version"@, version_of(bytes, tensors)),
        ],
    }
}

/// Checks the tensors of a checkpoint and gives the metadata with which they are written.
pub fn convert_checkpoint(kind: ModelKind, bytes: &Vec<u8>, tensors: &Vec<TensorInfo>) -> (r:
    Result<Vec<(String, String)>, String>)
    ensures
        match r {
            Ok(metadata) => names_of(tensors@).contains(required_tensor(kind)) && pairs(metadata@)
                == metadata_of(kind, bytes@, tensors@),
            Err(e) => !names_of(tensors@).contains(required_tensor(kind)) && e@
                == "checkpoint is missing required tensor "@ + required_tensor(kind),
        },
{
    let required = match kind {
        ModelKind::Gpt => "model.ar_text_embedding.word_embeddings.weight",
        ModelKind::Sovits => "enc_p.text_embedding.weight",
    };
    if find_name(&tensor_names(tensors), required).is_none() {
        let mut e = "checkpoint is missing required tensor ".to_owned();
        e.push_str(required);
        return Err(e);
    }
    let mut metadata: Vec<(String, String)> = Vec::new();
    match kind {
        ModelKind::Gpt => metadata.push(entry("model_type", "gpt")),
        ModelKind::Sovits => {
            metadata.push(entry("model_type", "sovits"));
            metadata.push(entry("model_version", sovits_version(bytes, tensors)));
        },
    }
    assert(pairs(metadata@) =~= metadata_of(kind, bytes@, tensors@));
    Ok(metadata)
}

/// The metadata with which the weights of a BERT model are written.
pub fn bert_metadata() -> (r: Vec<(String, String)>)
    ensures
        pairs(r@) == seq![("model_type"@, "bert"@)],
{
    let mut metadata: Vec<(String, String)> = Vec::new();
    metadata.push(entry("model_type", "bert"));
    assert(pairs(metadata@) =~= seq![("model_type"@, "bert"@)]);
    metadata
}

/// The metadata with which the weights of a HuBERT model are written.
pub fn hubert_metadata() -> (r: Vec<(String, String)>)
    ensures
        pairs(r@) == seq![("model_type"@, "hubert"@)],
{
    let mut metadata: Vec<(String, String)> = Vec::new();
    metadata.push(entry("model_type", "hubert"));
    assert(pairs(metadata@) =~= seq![("model_type"@, "hubert"@)]);
    metadata
}

/// The name under which the joined convolution weight of a HuBERT model is written.
pub fn hubert_joined_name() -> (r: &'static str)
    ensures
        r@ == "encoder.pos_conv_embed.conv.weight"@,
{
    "encoder.pos_conv_embed.conv.weight"
}

/// The metadata with which a speaker embedding is written.
pub fn embedding_metadata() -> (r: Vec<(String, String)>)
    ensures
        pairs(r@) == seq![("model_type"@, "sv_embedding"@), ("shape"@, "1,20480"@)],
{
    let mut metadata: Vec<(String, String)> = Vec::new();
    metadata.push(entry("model_type", "sv_embedding"));
    metadata.push(entry("shape", "1,20480"));
    assert(pairs(metadata@) =~= seq![("model_type"@, "sv_embedding"@), ("shape"@, "1,20480"@)]);
    metadata
}

/// The name under which a speaker embedding is written.
pub fn embedding_name() -> (r: &'static str)
    ensures
        r@ == "sv_embedding"@,
{
    "sv_embedding"
}

/// The rest of a name behind a prefix.
pub open spec fn rest_of(name: Seq<char>, prefix: Seq<char>) -> Option<Seq<char>> {
    if occurs_at(name, prefix, 0) {
        Some(name.skip(prefix.len() as int))
    } else {
        None
    }
}

/// The rest of a name behind a prefix.
pub fn strip_prefix(name: &str, prefix: &str) -> (r: Option<String>)
    ensures
        match r {
            Some(rest) => rest_of(name@, prefix@) == Some(rest@),
            None => rest_of(name@, prefix@) is None,
        },
{
    let chars = chars_of(name);
    let pattern = chars_of(prefix);
    if matches_at(chars.as_slice(), pattern.as_slice(), 0) {
        let rest = string_between(chars.as_slice(), pattern.len(), chars.len());
        assert(rest@ =~= name@.skip(prefix@.len() as int));
        Some(rest)
    } else {
        None
    }
}

/// The number of encoder layers that are kept of a BERT model.
pub const BERT_LAYERS: usize = 22;

/// What stands before the first point.
pub open spec fn before_dot(s: Seq<char>) -> Seq<char>
    decreases s.len(),
{
    if s.len() == 0 || s[0] == '.' {
        Seq::empty()
    } else {
        seq![s[0]] + before_dot(s.skip(1))
    }
}

/// Whether the layer that a name starts with is kept.
pub open spec fn is_kept_layer(rest: Seq<char>) -> bool {
    number_in(before_dot(rest)) matches Some(n) && n < BERT_LAYERS
}

proof fn lemma_before_dot(s: Seq<char>, n: int)
    requires
        0 <= n <= s.len(),
        forall|i: int| 0 <= i < n ==> s[i] != '.',
        n == s.len() || s[n] == '.',
    ensures
        before_dot(s) == s.take(n),
    decreases n,
{
    if n > 0 {
        lemma_before_dot(s.skip(1), n - 1);
        assert(seq![s[0]] + s.skip(1).take(n - 1) =~= s.take(n));
    } else {
        assert(s.take(0) =~= Seq::<char>::empty());
    }
}

/// Whether the layer that a name starts with is kept.
pub fn kept_layer(rest: &str) -> (r: bool)
    ensures
        r == is_kept_layer(rest@),
{
    let chars = chars_of(rest);
    let mut end: usize = 0;
    while end < chars.len() && chars[end] != '.'
        invariant
            end <= chars@.len(),
            forall|i: int| 0 <= i < end ==> chars@[i] != '.',
        decreases chars@.len() - end,
    {
        end = end + 1;
    }
    proof {
        lemma_before_dot(rest@, end as int);
    }
    let part = string_between(chars.as_slice(), 0, end);
    assert(part@ =~= before_dot(rest@));
    match parse_number(part.as_str()) {
        Some(n) => n < BERT_LAYERS,
        None => false,
    }
}

/// The name under which a tensor of a BERT checkpoint is written, if it is.
pub open spec fn bert_name_of(name: Seq<char>) -> Option<Seq<char>> {
    if name == "bert.embeddings.position_ids"@ {
        None
    } else {
        match rest_of(name, "bert.embeddings."@) {
            Some(rest) => Some("embeddings."@ + rest),
            None => match rest_of(name, "bert.encoder.layer."@) {
                Some(rest) => if is_kept_layer(rest) {
                    Some("encoder.layer."@ + rest)
                } else {
                    None
                },
                None => None,
            },
        }
    }
}

/// The name under which a tensor of a BERT checkpoint is written, if it is.
pub fn bert_name(name: &str) -> (r: Option<String>)
    ensures
        match r {
            Some(s) => bert_name_of(name@) == Some(s@),
            None => bert_name_of(name@) is None,
        },
{
    if same(name, "bert.embeddings.position_ids") {
        return None;
    }
    match strip_prefix(name, "bert.embeddings.") {
        Some(rest) => {
            let mut s = "embeddings.".to_owned();
            s.push_str(rest.as_str());
            return Some(s);
        },
        None => {},
    }
    match strip_prefix(name, "bert.encoder.layer.") {
        Some(rest) => {
            if kept_layer(rest.as_str()) {
                let mut s = "encoder.layer.".to_owned();
                s.push_str(rest.as_str());
                Some(s)
            } else {
                None
            }
        },
        None => None,
    }
}

/// The tensors of a BERT checkpoint that are written, each by its place and its new name.
pub open spec fn bert_kept(names: Seq<Seq<char>>) -> Seq<(int, Seq<char>)>
    decreases names.len(),
{
    if names.len() == 0 {
        Seq::empty()
    } else {
        let before = bert_kept(names.drop_last());
        match bert_name_of(names.last()) {
            Some(name) => before.push((names.len() - 1, name)),
            None => before,
        }
    }
}

/// Places and names by their views.
pub open spec fn places(kept: Seq<(usize, String)>) -> Seq<(int, Seq<char>)> {
    kept.map_values(|k: (usize, String)| (k.0 as int, k.1@))
}

/// The tensor that the last kept layer of a BERT model ends with.
pub open spec fn bert_required() -> Seq<char> {
    "encoder.layer.21.output.LayerNorm.bias"@
}

/// Whether a tensor is written under a name.
pub open spec fn writes(kept: Seq<(int, Seq<char>)>, name: Seq<char>) -> bool {
    exists|i: int| 0 <= i < kept.len() && (#[trigger] kept[i]).1 == name
}

/// The tensors of a BERT checkpoint that are written, each by its place and its new name; a
/// checkpoint without the last layer that is kept is refused.
pub fn convert_bert(names: &Vec<String>) -> (r: Result<Vec<(usize, String)>, String>)
    ensures
        match r {
            Ok(kept) => places(kept@) == bert_kept(views(names@)) && writes(
                bert_kept(views(names@)),
                bert_required(),
            ),
            Err(e) => !writes(bert_kept(views(names@)), bert_required()) && e@
                == "BERT checkpoint is missing "@ + bert_required(),
        },
{
    let ghost all = views(names@);
    let mut kept: Vec<(usize, String)> = Vec::new();
    let mut found = false;
    assert(places(kept@) =~= bert_kept(all.take(0)));
    for i in 0..names.len()
        invariant
            all == views(names@),
            places(kept@) == bert_kept(all.take(i as int)),
            found == writes(bert_kept(all.take(i as int)), bert_required()),
    {
        let ghost before = bert_kept(all.take(i as int));
        assert(all.take(i + 1).drop_last() =~= all.take(i as int));
        assert(all.take(i + 1).last() == names@[i as int]@);
        match bert_name(names[i].as_str()) {
            Some(name) => {
                let ghost was = kept@;
                if same(name.as_str(), "encoder.layer.21.output.LayerNorm.bias") {
                    found = true;
                }
                let ghost after = before.push((i as int, name@));
                assert(after.last().1 == name@);
                assert(forall|k: int| 0 <= k < before.len() ==> after[k] == before[k]);
                assert(writes(after, bert_required()) == (writes(before, bert_required()) || name@
                    == bert_required())) by {
                    if writes(before, bert_required()) {
                        let k = choose|k: int|
                            0 <= k < before.len() && (#[trigger] before[k]).1 == bert_required();
                        assert(after[k].1 == bert_required());
                    }
                    if name@ == bert_required() {
                        assert(after[before.len() as int].1 == bert_required());
                    }
                }
                kept.push((i, name));
                assert(places(kept@) =~= places(was).push((i as int, name@)));
            },
            None => {},
        }
    }
    assert(all.take(all.len() as int) =~= all);
    if found {
        Ok(kept)
    } else {
        let mut e = "BERT checkpoint is missing ".to_owned();
        e.push_str("encoder.layer.21.output.LayerNorm.bias");
        Err(e)
    }
}

/// Whether a tensor of a HuBERT checkpoint is written as it is.
pub open spec fn is_kept_by_hubert(name: Seq<char>) -> bool {
    name != "masked_spec_embed"@ && !occurs_at(name, "encoder.pos_conv_embed.conv.weight_"@, 0)
}

/// The places of the tensors of a HuBERT checkpoint that are written as they are.
pub open spec fn hubert_kept(names: Seq<Seq<char>>) -> Seq<usize>
    decreases names.len(),
{
    if names.len() == 0 {
        Seq::empty()
    } else if is_kept_by_hubert(names.last()) {
        hubert_kept(names.drop_last()).push((names.len() - 1) as usize)
    } else {
        hubert_kept(names.drop_last())
    }
}

/// The tensor that the last layer of a HuBERT model ends with.
pub open spec fn hubert_required() -> Seq<char> {
    "encoder.layers.11.final_layer_norm.bias"@
}

/// Which tensors the convolution weight of a HuBERT checkpoint is made of: its magnitude and its
/// direction, by their places.
pub fn hubert_weights(names: &Vec<String>) -> (r: Result<(usize, usize), String>)
    ensures
        ({
            let all = views(names@);
            let g = "encoder.pos_conv_embed.conv.weight_g"@;
            let v = "encoder.pos_conv_embed.conv.weight_v"@;
            match r {
                Ok((i, j)) => all.contains(g) && all.contains(v) && i == place_of_name(all, g) && j
                    == place_of_name(all, v) && i < all.len() && j < all.len(),
                Err(e) => if !all.contains(g) {
                    e@ == "checkpoint is missing "@ + g
                } else {
                    !all.contains(v) && e@ == "checkpoint is missing "@ + v
                },
            }
        }),
{
    let g = match find_tensor(names, "encoder.pos_conv_embed.conv.weight_g") {
        Ok(i) => i,
        Err(e) => return Err(e),
    };
    assert(views(names@)[g as int] == names@[g as int]@);
    match find_tensor(names, "encoder.pos_conv_embed.conv.weight_v") {
        Ok(v) => {
            assert(views(names@)[v as int] == names@[v as int]@);
            Ok((g, v))
        },
        Err(e) => Err(e),
    }
}

/// The places of the tensors of a HuBERT checkpoint that are written as they are, beside the
/// convolution weight; a checkpoint without the last layer is refused.
pub fn convert_hubert(names: &Vec<String>) -> (r: Result<Vec<usize>, String>)
    ensures
        match r {
            Ok(kept) => kept@ == hubert_kept(views(names@)) && views(names@).contains(
                hubert_required(),
            ),
            Err(e) => !views(names@).contains(hubert_required()) && e@
                == "HuBERT checkpoint is missing "@ + hubert_required(),
        },
{
    let ghost all = views(names@);
    let mut kept: Vec<usize> = Vec::new();
    let prefix = chars_of("encoder.pos_conv_embed.conv.weight_");
    for i in 0..names.len()
        invariant
            all == views(names@),
            prefix@ == "encoder.pos_conv_embed.conv.weight_"@,
            kept@ == hubert_kept(all.take(i as int)),
    {
        assert(all.take(i + 1).drop_last() =~= all.take(i as int));
        assert(all.take(i + 1).last() == names@[i as int]@);
        let chars = chars_of(names[i].as_str());
        if !same(names[i].as_str(), "masked_spec_embed") && !matches_at(
            chars.as_slice(),
            prefix.as_slice(),
            0,
        ) {
            kept.push(i);
        }
    }
    assert(all.take(all.len() as int) =~= all);
    if find_name(names, "encoder.layers.11.final_layer_norm.bias").is_some() {
        Ok(kept)
    } else {
        let mut e = "HuBERT checkpoint is missing ".to_owned();
        e.push_str("encoder.layers.11.final_layer_norm.bias");
        Err(e)
    }
}

/// How a key is shown.
pub open spec fn key_shown(key: Seq<char>) -> Seq<char> {
    if key.len() == 0 {
        "None"@
    } else {
        "Some(\""@ + key + "\")"@
    }
}

/// The trials of the keys under which a checkpoint may hold its tensors: one after the other,
/// until one gives tensors.
pub struct KeyTrials {
    /// The keys in the order in which they are tried; the empty key is the checkpoint itself.
    pub keys: Vec<String>,
    /// How many were tried.
    pub tried: usize,
    /// Why the last one that was tried gave no tensors.
    pub last_error: Option<String>,
}

/// What a trial gave: the number of tensors, or why they cannot be read.
pub open spec fn trial_error(key: Seq<char>, outcome: Result<usize, String>) -> Option<Seq<char>> {
    match outcome {
        Ok(n) => if n > 0 {
            None
        } else {
            Some("no tensors found with key "@ + key_shown(key))
        },
        Err(e) => Some(e@),
    }
}

impl KeyTrials {
    /// Whether no more keys were tried than there are.
    pub open spec fn valid(&self) -> bool {
        self.tried <= self.keys@.len()
    }

    /// The keys that are tried for a model.
    pub fn for_model() -> (r: Self)
        ensures
            r.valid(),
            views(r.keys@) == seq!["weight"@, "state_dict"@, ""@],
            r.tried == 0,
            r.last_error is None,
    {
        let mut keys: Vec<String> = Vec::new();
        keys.push("weight".to_owned());
        keys.push("state_dict".to_owned());
        keys.push("".to_owned());
        assert(views(keys@) =~= seq!["weight"@, "state_dict"@, ""@]);
        KeyTrials { keys, tried: 0, last_error: None }
    }

    /// The keys that are tried for a speaker embedding.
    pub fn for_embedding() -> (r: Self)
        ensures
            r.valid(),
            views(r.keys@) == seq![""@, "weight"@, "state_dict"@],
            r.tried == 0,
            r.last_error is None,
    {
        let mut keys: Vec<String> = Vec::new();
        keys.push("".to_owned());
        keys.push("weight".to_owned());
        keys.push("state_dict".to_owned());
        assert(views(keys@) =~= seq![""@, "weight"@, "state_dict"@]);
        KeyTrials { keys, tried: 0, last_error: None }
    }

    /// The keys that are tried for a feature model.
    pub fn for_features() -> (r: Self)
        ensures
            r.valid(),
            views(r.keys@) == seq![""@, "state_dict"@, "model"@],
            r.tried == 0,
            r.last_error is None,
    {
        let mut keys: Vec<String> = Vec::new();
        keys.push("".to_owned());
        keys.push("state_dict".to_owned());
        keys.push("model".to_owned());
        assert(views(keys@) =~= seq![""@, "state_dict"@, "model"@]);
        KeyTrials { keys, tried: 0, last_error: None }
    }

    /// The next key to try.
    pub fn next_key(&self) -> (r: Option<String>)
        requires
            self.valid(),
        ensures
            match r {
                Some(key) => self.tried < self.keys@.len() && key@
                    == self.keys@[self.tried as int]@,
                None => self.tried == self.keys@.len(),
            },
    {
        if self.tried < self.keys.len() {
            Some(self.keys[self.tried].as_str().to_owned())
        } else {
            None
        }
    }

    /// Takes what the next key gave, and says whether the trials are over with it.
    pub fn report(&mut self, outcome: Result<usize, String>) -> (r: bool)
        requires
            old(self).valid(),
            old(self).tried < old(self).keys@.len(),
        ensures
            final(self).valid(),
            final(self).keys@ == old(self).keys@,
            final(self).tried == old(self).tried + 1,
            ({
                let error = trial_error(old(self).keys@[old(self).tried as int]@, outcome);
                &&& r == (error is None)
                &&& match error {
                    None => final(self).last_error == old(self).last_error,
                    Some(e) => final(self).last_error is Some && final(self).last_error->0@ == e,
                }
            }),
    {
        let total: usize = self.keys.len();
        assert(self.tried < total);
        let key = self.keys[self.tried].as_str().to_owned();
        self.tried = self.tried + 1;
        match outcome {
            Ok(n) => {
                if n > 0 {
                    return true;
                }
                let mut e = "no tensors found with key ".to_owned();
                if chars_of(key.as_str()).len() == 0 {
                    e.push_str("None");
                } else {
                    let mut shown = "Some(\"".to_owned();
                    shown.push_str(key.as_str());
                    shown.push_str("\")");
                    e.push_str(shown.as_str());
                }
                self.last_error = Some(e);
                false
            },
            Err(e) => {
                self.last_error = Some(e);
                false
            },
        }
    }

    /// What is said when no key gave tensors.
    pub fn failure(&self, path: &str) -> (r: String)
        ensures
            r@ == "failed to read tensors from "@ + path@ + ": "@ + (match self.last_error {
                Some(e) => e@,
                None => "no compatible state_dict found"@,
            }),
    {
        let mut r = "failed to read tensors from ".to_owned();
        r.push_str(path);
        r.push_str(": ");
        match &self.last_error {
            Some(e) => r.push_str(e.as_str()),
            None => r.push_str("no compatible state_dict found"),
        }
        r
    }
}

/// The length of a speaker embedding.
pub const EMBEDDING_LEN: usize = 20480;

/// A speaker embedding checkpoint holds exactly one tensor.
pub fn single_tensor(count: usize) -> (r: Result<(), String>)
    ensures
        match r {
            Ok(_) => count == 1,
            Err(e) => count != 1 && e@
                == "SV embedding checkpoint must contain exactly one tensor, found "@ + decimal(
                count as nat,
            ),
        },
{
    if count == 1 {
        Ok(())
    } else {
        let mut e = "SV embedding checkpoint must contain exactly one tensor, found ".to_owned();
        e.push_str(decimal_string(count as u64).as_str());
        Err(e)
    }
}

/// Numbers in decimal.
pub open spec fn decimals(numbers: Seq<usize>) -> Seq<Seq<char>> {
    numbers.map_values(|n: usize| decimal(n as nat))
}

/// A shape as it is shown.
pub fn shape_text(dims: &Vec<usize>) -> (r: String)
    ensures
        r@ == "["@ + join(decimals(dims@), ", "@) + "]"@,
{
    let mut shown: Vec<String> = Vec::new();
    for i in 0..dims.len()
        invariant
            views(shown@) == decimals(dims@).take(i as int),
    {
        let number = decimal_string(dims[i] as u64);
        proof {
            lemma_views_push(shown@, number);
            assert(decimals(dims@).take(i + 1) =~= decimals(dims@).take(i as int).push(number@));
        }
        shown.push(number);
    }
    assert(decimals(dims@).take(dims@.len() as int) =~= decimals(dims@));
    let mut r = "[".to_owned();
    r.push_str(join_strings(&shown, ", ").as_str());
    r.push_str("]");
    r
}

/// What has to be done to a speaker embedding of a shape: `true` where a dimension is put before
/// the one that it has, `false` where it is as it should be.
pub fn embedding_shape(dims: &Vec<usize>) -> (r: Result<bool, String>)
    ensures
        match r {
            Ok(true) => dims@ == seq![EMBEDDING_LEN],
            Ok(false) => dims@ == seq![1usize, EMBEDDING_LEN],
            Err(e) => dims@ != seq![EMBEDDING_LEN] && dims@ != seq![1usize, EMBEDDING_LEN] && e@
                == "SV embedding must have shape [20480] or [1, 20480], got "@ + ("["@ + join(
                decimals(dims@),
                ", "@,
            ) + "]"@),
        },
{
    if dims.len() == 1 && dims[0] == EMBEDDING_LEN {
        assert(dims@ =~= seq![EMBEDDING_LEN]);
        return Ok(true);
    }
    if dims.len() == 2 && dims[0] == 1 && dims[1] == EMBEDDING_LEN {
        assert(dims@ =~= seq![1usize, EMBEDDING_LEN]);
        assert(dims@.len() == 2);
        return Ok(false);
    }
    let mut e = "SV embedding must have shape [20480] or [1, 20480], got ".to_owned();
    e.push_str(shape_text(dims).as_str());
    Err(e)
}

/// Whether a file of an archive holds the storage of a bare tensor: the file `0` below a
/// directory `data`.
pub open spec fn is_storage(name: Seq<char>) -> bool {
    last_index(name, '/') >= 0 && name.skip(last_index(name, '/') + 1) == "0"@ && exists|i: int|
        #[trigger] occurs_at(name, "/data/"@, i)
}

/// Whether a file of an archive holds the storage of a bare tensor.
pub fn storage_name(name: &str) -> (r: bool)
    ensures
        r == is_storage(name@),
{
    let chars = chars_of(name);
    proof {
        lemma_last_index(chars@, '/');
    }
    let slash = match find_last(&chars, '/') {
        Some(i) => i,
        None => return false,
    };
    let file = string_between(chars.as_slice(), slash + 1, chars.len());
    assert(file@ =~= name@.skip(slash + 1));
    if !same(file.as_str(), "0") {
        return false;
    }
    let pattern = chars_of("/data/");
    for i in 0..chars.len()
        invariant
            chars@ == name@,
            pattern@ == "/data/"@,
            forall|k: int| 0 <= k < i ==> !#[trigger] occurs_at(name@, "/data/"@, k),
            last_index(name@, '/') >= 0,
            name@.skip(last_index(name@, '/') + 1) == "0"@,
    {
        if matches_at(chars.as_slice(), pattern.as_slice(), i) {
            return true;
        }
    }
    proof {
        reveal_strlit("/data/");
    }
    false
}

/// The places of the files that hold the storage of a bare tensor.
pub open spec fn storages(names: Seq<Seq<char>>) -> Seq<usize>
    decreases names.len(),
{
    if names.len() == 0 {
        Seq::empty()
    } else if is_storage(names.last()) {
        storages(names.drop_last()).push((names.len() - 1) as usize)
    } else {
        storages(names.drop_last())
    }
}

/// Finds the one file that holds the storage of a bare tensor.
pub fn bare_storage(names: &Vec<String>) -> (r: Result<usize, String>)
    ensures
        match r {
            Ok(i) => storages(views(names@)) == seq![i] && i < names@.len(),
            Err(e) => storages(views(names@)).len() != 1 && e@
                == "bare SV .pt must contain exactly one data/0 tensor storage, found "@ + decimal(
                storages(views(names@)).len(),
            ),
        },
{
    let ghost all = views(names@);
    let mut found: Vec<usize> = Vec::new();
    for i in 0..names.len()
        invariant
            all == views(names@),
            found@ == storages(all.take(i as int)),
            forall|k: int| 0 <= k < found@.len() ==> found@[k] < i,
    {
        assert(all.take(i + 1).drop_last() =~= all.take(i as int));
        assert(all.take(i + 1).last() == names@[i as int]@);
        if storage_name(names[i].as_str()) {
            found.push(i);
        }
    }
    assert(all.take(all.len() as int) =~= all);
    if found.len() == 1 {
        assert(found@ =~= seq![found@[0]]);
        Ok(found[0])
    } else {
        let mut e = "bare SV .pt must contain exactly one data/0 tensor storage, found ".to_owned();
        e.push_str(decimal_string(found.len() as u64).as_str());
        Err(e)
    }
}

/// The formats of numbers in the storage of a bare tensor.
#[derive(Debug, Clone, Copy, PartialEq, Eq, Structural)]
pub enum StorageFormat {
    Half,
    Single,
}

/// The format of the numbers of a storage by its length in bytes.
pub fn storage_format(size: usize) -> (r: Result<StorageFormat, String>)
    ensures
        match r {
            Ok(StorageFormat::Half) => size == 2 * EMBEDDING_LEN,
            Ok(StorageFormat::Single) => size == 4 * EMBEDDING_LEN,
            Err(e) => size != 2 * EMBEDDING_LEN && size != 4 * EMBEDDING_LEN && e@
                == "bare SV tensor storage has unexpected byte length "@ + decimal(size as nat),
        },
{
    if size == 40960 {
        Ok(StorageFormat::Half)
    } else if size == 81920 {
        Ok(StorageFormat::Single)
    } else {
        let mut e = "bare SV tensor storage has unexpected byte length ".to_owned();
        e.push_str(decimal_string(size as u64).as_str());
        Err(e)
    }
}

/// Numbers of two bytes each, the low byte first; a byte that is left over is dropped.
pub fn half_words(bytes: &Vec<u8>) -> (r: Vec<u16>)
    ensures
        r@ == Seq::new(
            bytes@.len() / 2,
            |i: int| (bytes@[2 * i] + 256 * bytes@[2 * i + 1]) as u16,
        ),
{
    let mut r: Vec<u16> = Vec::new();
    let len: usize = bytes.len();
    let total: usize = len / 2;
    for i in 0..total
        invariant
            len == bytes@.len(),
            total == bytes@.len() / 2,
            r@ == Seq::new(
                i as nat,
                |i: int| (bytes@[2 * i] + 256 * bytes@[2 * i + 1]) as u16,
            ),
    {
        r.push(bytes[2 * i] as u16 + 256 * bytes[2 * i + 1] as u16);
    }
    r
}

/// Numbers of four bytes each, the low bytes first; bytes that are left over are dropped.
pub fn single_words(bytes: &Vec<u8>) -> (r: Vec<u32>)
    ensures
        r@ == Seq::new(
            bytes@.len() / 4,
            |i: int|
                (bytes@[4 * i] + 256 * bytes@[4 * i + 1] + 65536 * bytes@[4 * i + 2] + 16777216
                    * bytes@[4 * i + 3]) as u32,
        ),
{
    let mut r: Vec<u32> = Vec::new();
    let len: usize = bytes.len();
    let total: usize = len / 4;
    for i in 0..total
        invariant
            len == bytes@.len(),
            total == bytes@.len() / 4,
            r@ == Seq::new(
                i as nat,
                |i: int|
                    (bytes@[4 * i] + 256 * bytes@[4 * i + 1] + 65536 * bytes@[4 * i + 2] + 16777216
                        * bytes@[4 * i + 3]) as u32,
            ),
    {
        r.push(
            bytes[4 * i] as u32 + 256 * bytes[4 * i + 1] as u32 + 65536 * bytes[4 * i + 2] as u32
                + 16777216 * bytes[4 * i + 3] as u32,
        );
    }
    r
}

/// Only a file with tensors is written.
pub fn check_written(count: usize) -> (r: Result<(), String>)
    ensures
        match r {
            Ok(_) => count > 0,
            Err(e) => count == 0 && e@ == "no tensors to write"@,
        },
{
    if count == 0 {
        Err("no tensors to write".to_owned())
    } else {
        Ok(())
    }
}

/// The path beside an output under which it is written until it is complete: with one more
/// extension. A path without a file name stays as it is.
pub open spec fn temporary_of(path: Seq<char>) -> Seq<char> {
    match file_name(path) {
        Some(_) => match extension_of(path) {
            Some(_) => trimmed(path) + ".tmp"@,
            None => trimmed(path) + ".safetensors.tmp"@,
        },
        None => path,
    }
}

/// The path beside an output under which it is written until it is complete.
pub fn temporary_path(path: &str) -> (r: String)
    ensures
        r@ == temporary_of(path@),
{
    match name_of_file(path) {
        Some(_) => {
            let mut r = trimmed_path(path);
            match extension(path) {
                Some(_) => r.push_str(".tmp"),
                None => r.push_str(".safetensors.tmp"),
            }
            r
        },
        None => path.to_owned(),
    }
}

/// Only tensors of a BERT checkpoint that keep their order are written, each once.
pub proof fn bert_keeps_order(names: Seq<Seq<char>>)
    ensures
        forall|i: int, j: int|
            0 <= i < j < bert_kept(names).len() ==> (#[trigger] bert_kept(names)[i]).0 < (
            #[trigger] bert_kept(names)[j]).0,
        forall|i: int|
            0 <= i < bert_kept(names).len() ==> 0 <= (#[trigger] bert_kept(names)[i]).0
                < names.len() && bert_name_of(names[bert_kept(names)[i].0]) == Some(
                bert_kept(names)[i].1,
            ),
    decreases names.len(),
{
    if names.len() > 0 {
        bert_keeps_order(names.drop_last());
    }
}

/// Patching a checkpoint leaves all but its first two bytes as they are, and a patched
/// checkpoint is not patched again.
pub proof fn patching_settles(bytes: Seq<u8>)
    requires
        version_of_header(bytes) is Some,
    ensures
        version_of_header(bytes.update(0, 80u8).update(1, 75u8)) is None,
        bytes.update(0, 80u8).update(1, 75u8).skip(2) == bytes.skip(2),
{
    assert(bytes.update(0, 80u8).update(1, 75u8).skip(2) =~= bytes.skip(2));
}

/// A checkpoint of a BERT model keeps its embeddings, but for the positions, and its encoder
/// layers below the limit, each without the first part of its name; nothing else is kept.
pub proof fn bert_tensors_lose_their_prefix(rest: Seq<char>, layer: nat)
    requires
        rest != "position_ids"@,
    ensures
        bert_name_of("bert.embeddings."@ + rest) == Some("embeddings."@ + rest),
        bert_name_of("bert.encoder.layer."@ + (decimal(layer) + seq!['.'] + rest)) == if layer
            < 22 {
            Some("encoder.layer."@ + (decimal(layer) + seq!['.'] + rest))
        } else {
            None
        },
        bert_name_of("bert.embeddings.position_ids"@) is None,
{
    reveal_strlit("bert.embeddings.");
    reveal_strlit("bert.encoder.layer.");
    reveal_strlit("bert.embeddings.position_ids");
    reveal_strlit("position_ids");
    let e = "bert.embeddings."@;
    let l = "bert.encoder.layer."@;
    assert(e.len() == 16 && l.len() == 19);
    let first = e + rest;
    assert(first.subrange(0, 16) =~= e);
    assert(first.skip(16) =~= rest);
    assert("bert.embeddings.position_ids"@.skip(16) =~= "position_ids"@);
    let below = decimal(layer) + seq!['.'] + rest;
    let second = l + below;
    assert(second.subrange(0, 19) =~= l);
    assert(second.skip(19) =~= below);
    assert(second[6] == l[6] && l[6] == 'n' && e[6] == 'm');
    assert("bert.embeddings.position_ids"@[6] == 'm');
    assert(!occurs_at(second, e, 0)) by {
        if occurs_at(second, e, 0) {
            assert(second.subrange(0, 16)[6] == second[6]);
        }
    }
    numbers_are_read_back(layer, Seq::empty(), 0);
    decimals_spell_their_number(layer);
    let n = decimal(layer).len() as int;
    assert forall|i: int| 0 <= i < n implies below[i] != '.' by {
        assert(below[i] == decimal(layer)[i]);
    }
    lemma_before_dot(below, n);
    assert(below.take(n) =~= decimal(layer));
}

/// Every tensor that has a name in the converted BERT model is written under it.
pub proof fn every_bert_tensor_is_written(names: Seq<Seq<char>>, i: int, name: Seq<char>)
    requires
        0 <= i < names.len(),
        bert_name_of(names[i]) == Some(name),
    ensures
        bert_kept(names).contains((i, name)),
    decreases names.len(),
{
    let before = bert_kept(names.drop_last());
    let kept = bert_kept(names);
    if i == names.len() - 1 {
        assert(kept[before.len() as int] == (i, name));
    } else {
        every_bert_tensor_is_written(names.drop_last(), i, name);
        let k = before.index_of((i, name));
        assert(kept[k] == (i, name));
    }
}

/// The versions that the first two bytes of a checkpoint stand for: the digits of a number from
/// 00 to 06.
pub proof fn versions_by_header(bytes: Seq<u8>)
    ensures
        version_of_header(bytes) is Some <==> bytes.len() >= 2 && bytes[0] == 0x30 && 0x30
            <= bytes[1] <= 0x36,
        bytes.len() >= 2 && bytes[0] == 0x30 ==> {
            &&& bytes[1] == 0x30 ==> version_of_header(bytes) == Some("v1"@)
            &&& bytes[1] == 0x31 ==> version_of_header(bytes) == Some("v2"@)
            &&& bytes[1] == 0x32 || bytes[1] == 0x33 ==> version_of_header(bytes) == Some("v3"@)
            &&& bytes[1] == 0x34 ==> version_of_header(bytes) == Some("v4"@)
            &&& bytes[1] == 0x35 ==> version_of_header(bytes) == Some("v2Pro"@)
            &&& bytes[1] == 0x36 ==> version_of_header(bytes) == Some("v2ProPlus"@)
        },
{
}

/// An output is written beside itself under a name with one more extension, which differs from
/// its own.
pub proof fn temporaries_stand_beside_their_output(dir: Seq<char>, stem: Seq<char>, ext: Seq<char>)
    requires
        stem.len() > 0,
        !stem.contains('/'),
        !ext.contains('/'),
        !ext.contains('.'),
        ext.len() > 0,
    ensures
        ({
            let path = dir + seq!['/'] + (stem + seq!['.'] + ext);
            temporary_of(path) == path + ".tmp"@
        }),
{
    extensions_follow_the_last_point(dir, stem, ext);
    let name = stem + seq!['.'] + ext;
    let path = dir + seq!['/'] + name;
    assert(path.last() == ext.last());
    assert(ext.contains(ext.last()));
    assert(file_name(path) is Some);
    assert(trimmed(path) == path);
}

/// A name that occurs has the place where it stands first.
pub proof fn names_have_their_place(names: Seq<Seq<char>>, name: Seq<char>)
    ensures
        names.contains(name) ==> 0 <= place_of_name(names, name) < names.len()
            && names[place_of_name(names, name)] == name,
        !names.contains(name) ==> place_of_name(names, name) == names.len(),
{
    lemma_place_of_name(names, name);
}

/// A tensor of a HuBERT checkpoint is written as it is, in its order, unless it is the mask or a
/// part of the weight of the positions.
pub proof fn hubert_tensors_are_kept_in_order(names: Seq<Seq<char>>, i: usize)
    requires
        names.len() <= usize::MAX,
    ensures
        hubert_kept(names).contains(i) <==> i < names.len() && names[i as int] != "masked_spec_embed"@
            && !occurs_at(names[i as int], "encoder.pos_conv_embed.conv.weight_"@, 0),
        forall|a: int, b: int|
            0 <= a < b < hubert_kept(names).len() ==> (#[trigger] hubert_kept(names)[a]) < (#[trigger] hubert_kept(
                names,
            )[b]),
        forall|a: int| 0 <= a < hubert_kept(names).len() ==> (#[trigger] hubert_kept(names)[a]) < names.len(),
    decreases names.len(),
{
    if names.len() > 0 {
        let rest = names.drop_last();
        let before = hubert_kept(rest);
        let after = hubert_kept(names);
        let last: usize = (names.len() - 1) as usize;
        hubert_tensors_are_kept_in_order(rest, i);
        if after.len() > before.len() {
            assert(after[before.len() as int] == last);
            if before.contains(i) {
                let k = before.index_of(i);
                assert(after[k] == i);
            }
            if after.contains(i) {
                let k = after.index_of(i);
                if k < before.len() {
                    assert(before[k] == i);
                }
            }
        }
        if i < last {
            assert(rest[i as int] == names[i as int]);
        }
    }
}

/// The storages of an archive are found in their order, each file that is one and no other.
pub proof fn storages_are_found_in_order(names: Seq<Seq<char>>, i: usize)
    requires
        names.len() <= usize::MAX,
    ensures
        storages(names).contains(i) <==> i < names.len() && is_storage(names[i as int]),
        forall|a: int, b: int|
            0 <= a < b < storages(names).len() ==> (#[trigger] storages(names)[a]) < (#[trigger] storages(
                names,
            )[b]),
        forall|a: int| 0 <= a < storages(names).len() ==> (#[trigger] storages(names)[a]) < names.len(),
    decreases names.len(),
{
    if names.len() > 0 {
        let rest = names.drop_last();
        let before = storages(rest);
        let after = storages(names);
        let last: usize = (names.len() - 1) as usize;
        storages_are_found_in_order(rest, i);
        if after.len() > before.len() {
            assert(after[before.len() as int] == last);
            if before.contains(i) {
                let k = before.index_of(i);
                assert(after[k] == i);
            }
            if after.contains(i) {
                let k = after.index_of(i);
                if k < before.len() {
                    assert(before[k] == i);
                }
            }
        }
        if i < last {
            assert(rest[i as int] == names[i as int]);
        }
    }
}

/// The file `0` below a directory `data` holds a storage, wherever that directory lies.
pub proof fn storages_lie_below_data(dir: Seq<char>, name: Seq<char>)
    requires
        !name.contains('/'),
    ensures
        is_storage(dir + "/data/"@ + name) <==> name == seq!['0'],
{
    reveal_strlit("/data/");
    reveal_strlit("0");
    assert("0"@ =~= seq!['0']);
    let data = "/data/"@;
    assert(data.len() == 6 && data[5] == '/');
    let path = dir + data + name;
    let at: int = dir.len() as int + 5;
    assert(path[at] == data[5]);
    assert forall|j: int| at < j < path.len() implies #[trigger] path[j] != '/' by {
        assert(path[j] == name[j - at - 1]);
        assert(name.contains(name[j - at - 1]));
    }
    lemma_last_index_is(path, '/', at);
    assert(path.skip(at + 1) =~= name);
    assert(path.subrange(dir.len() as int, dir.len() as int + 6) =~= data);
    assert(occurs_at(path, data, dir.len() as int));
}

/// The version of a checkpoint goes by its first bytes wherever these stand for one; else by the
/// tensors that only one version has, and then by its symbols, of which the first has 322.
pub proof fn versions_go_by_bytes_then_tensors(bytes: Seq<u8>, tensors: Seq<TensorInfo>, i: int)
    ensures
        version_of_header(bytes) matches Some(v) ==> version_of(bytes, tensors) == v,
        version_of_header(bytes) is None && names_of(tensors).contains("ge_to512.weight"@)
            && names_of(tensors).contains("sv_emb.weight"@) ==> version_of(bytes, tensors)
            == "v2Pro"@,
        version_of_header(bytes) is None && !names_of(tensors).contains("sv_emb.weight"@)
            && !names_of(tensors).contains("enc_p.text_embedding.weight"@) ==> version_of(
            bytes,
            tensors,
        ) == "v2"@,
        version_of_header(bytes) is None && !names_of(tensors).contains("sv_emb.weight"@) && 0 <= i
            < tensors.len() && names_of(tensors).no_duplicates() && tensors[i].name@
            == "enc_p.text_embedding.weight"@ && tensors[i].dims@.len() > 0 ==> version_of(
            bytes,
            tensors,
        ) == if tensors[i].dims@[0] == 322 {
            "v1"@
        } else {
            "v2"@
        },
{
    let names = names_of(tensors);
    let key = "enc_p.text_embedding.weight"@;
    names_have_their_place(names, key);
    if 0 <= i < tensors.len() && tensors[i].name@ == key {
        assert(names[i] == key);
        assert(names.contains(key));
        assert(names.no_duplicates() ==> place_of_name(names, key) == i);
    }
}

} // verus!
