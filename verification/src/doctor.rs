//! Setup diagnostics.

use crate::config::{device_name, Device};
use crate::float_bits::{less, F32};
use crate::strings::{
    chars_of, decimal, decimal_string, join, join_strings, same, trim, trimmed, views,
};
use crate::model_paths::ModelPaths;
use crate::paths::{beside, extension, extension_of, sibling};
use vstd::prelude::*;

verus! {

/// How grave a finding is.
#[derive(Debug, Clone, Copy, PartialEq, Eq, Structural)]
pub enum Level {
    Fine,
    Warn,
    Error,
}

/// A report: findings in the order in which they were made.
pub struct DoctorReport {
    pub findings: Vec<(Level, String)>,
}

/// Findings by their views.
pub open spec fn findings_view(findings: Seq<(Level, String)>) -> Seq<(Level, Seq<char>)> {
    findings.map_values(|f: (Level, String)| (f.0, f.1@))
}

/// How many findings are of a level.
pub open spec fn tally(findings: Seq<(Level, Seq<char>)>, level: Level) -> nat
    decreases findings.len(),
{
    if findings.len() == 0 {
        0
    } else {
        tally(findings.drop_last(), level) + (if findings.last().0 == level {
            1nat
        } else {
            0nat
        })
    }
}

/// The line of a finding.
pub open spec fn finding_line(finding: (Level, Seq<char>)) -> Seq<char> {
    match finding.0 {
        Level::Fine => "[ok] "@ + finding.1,
        Level::Warn => "[warn] "@ + finding.1,
        Level::Error => "[error] "@ + finding.1,
    }
}

/// Writes parts one after the other.
fn text3(a: &str, b: &str, c: &str) -> (r: String)
    ensures
        r@ == a@ + b@ + c@,
{
    let mut r = a.to_owned();
    r.push_str(b);
    r.push_str(c);
    r
}

/// Writes parts one after the other.
fn text5(a: &str, b: &str, c: &str, d: &str, e: &str) -> (r: String)
    ensures
        r@ == a@ + b@ + c@ + d@ + e@,
{
    let mut r = text3(a, b, c);
    r.push_str(d);
    r.push_str(e);
    r
}

impl DoctorReport {
    /// The findings by their views.
    pub open spec fn seen(&self) -> Seq<(Level, Seq<char>)> {
        findings_view(self.findings@)
    }

    /// A report without findings.
    pub fn new() -> (r: Self)
        ensures
            r.seen() == Seq::<(Level, Seq<char>)>::empty(),
    {
        let r = DoctorReport { findings: Vec::new() };
        assert(r.seen() =~= Seq::empty());
        r
    }

    /// Adds a finding.
    pub fn note(&mut self, level: Level, message: &str)
        ensures
            final(self).seen() == old(self).seen().push((level, message@)),
    {
        self.findings.push((level, message.to_owned()));
        assert(self.seen() =~= old(self).seen().push((level, message@)));
    }

    /// How many findings are of a level.
    pub fn count(&self, level: Level) -> (r: usize)
        ensures
            r == tally(self.seen(), level),
            r <= self.findings@.len(),
    {
        let ghost all = self.seen();
        let mut n: usize = 0;
        for i in 0..self.findings.len()
            invariant
                all == self.seen(),
                n == tally(all.take(i as int), level),
                n <= i,
        {
            assert(all.take(i + 1).drop_last() =~= all.take(i as int));
            assert(all[i as int].0 == self.findings@[i as int].0);
            if self.findings[i].0 == level {
                n = n + 1;
            }
        }
        assert(all.take(all.len() as int) =~= all);
        n
    }

    /// The line of a finding.
    pub fn line(&self, i: usize) -> (r: String)
        requires
            i < self.findings@.len(),
        ensures
            r@ == finding_line(self.seen()[i as int]),
    {
        let mark = match self.findings[i].0 {
            Level::Fine => "[ok] ",
            Level::Warn => "[warn] ",
            Level::Error => "[error] ",
        };
        let mut r = mark.to_owned();
        r.push_str(self.findings[i].1.as_str());
        r
    }

    /// Whether nothing blocks, and the closing words that say so.
    pub fn summary(&self) -> (r: (bool, String))
        ensures
            r.0 == (tally(self.seen(), Level::Error) == 0),
            r.1@ == if tally(self.seen(), Level::Error) == 0 {
                "Doctor finished: "@ + decimal(self.seen().len()) + " check(s), "@ + decimal(
                    tally(self.seen(), Level::Warn),
                ) + " warning(s), no blocking errors."@
            } else {
                "Doctor found "@ + decimal(tally(self.seen(), Level::Error))
                    + " blocking error(s) and "@ + decimal(tally(self.seen(), Level::Warn))
                    + " warning(s) across "@ + decimal(self.seen().len())
                    + " check(s).\nFix the errors above, then run `gpt-sovits --doctor` again."@
            },
    {
        let errors: usize = self.count(Level::Error);
        let warnings = decimal_string(self.count(Level::Warn) as u64);
        let checks = decimal_string(self.findings.len() as u64);
        if errors == 0 {
            (
                true,
                text5(
                    "Doctor finished: ",
                    checks.as_str(),
                    " check(s), ",
                    warnings.as_str(),
                    " warning(s), no blocking errors.",
                ),
            )
        } else {
            let mut line = text5(
                "Doctor found ",
                decimal_string(errors as u64).as_str(),
                " blocking error(s) and ",
                warnings.as_str(),
                " warning(s) across ",
            );
            line.push_str(checks.as_str());
            line.push_str(
                " check(s).\nFix the errors above, then run `gpt-sovits --doctor` again.",
            );
            (false, line)
        }
    }
}

/// What opening the devices came to.
pub struct DeviceProbe {
    /// Whether CUDA support was compiled in.
    pub cuda_compiled: bool,
    /// What is wrong with CUDA, if anything.
    pub cuda_error: Option<String>,
    /// What is wrong with Metal, if anything.
    pub metal_error: Option<String>,
}

/// What is found of the device that was asked for.
pub open spec fn device_finding(requested: Seq<char>, resolved: Device, probe: DeviceProbe) -> (
    Level,
    Seq<char>,
) {
    if requested == "cuda"@ {
        if !probe.cuda_compiled {
            (
                Level::Error,
                "CUDA was requested, but this binary was not built with --features cuda"@,
            )
        } else {
            match probe.cuda_error {
                None => (Level::Fine, "CUDA device is available"@),
                Some(e) => (
                    Level::Error,
                    "CUDA was requested, but Candle could not open CUDA device 0: "@ + e@,
                ),
            }
        }
    } else if requested == "mps"@ {
        match probe.metal_error {
            None => (Level::Fine, "Metal/MPS device is available"@),
            Some(e) => (
                Level::Error,
                "MPS was requested, but Candle could not open Metal device 0: "@ + e@,
            ),
        }
    } else if requested == "cpu"@ {
        (Level::Fine, "CPU device selected"@)
    } else if requested == "auto"@ {
        (Level::Fine, "auto device resolved to "@ + device_name(resolved))
    } else {
        (
            Level::Error,
            "Unsupported device '"@ + requested + "'; expected auto, cuda, cpu, or mps"@,
        )
    }
}

/// Checks the device that was asked for.
pub fn check_device(report: &mut DoctorReport, requested: &str, resolved: Device, probe: &DeviceProbe)
    ensures
        final(report).seen() == old(report).seen().push(
            device_finding(requested@, resolved, *probe),
        ),
{
    if same(requested, "cuda") {
        if !probe.cuda_compiled {
            report.note(
                Level::Error,
                "CUDA was requested, but this binary was not built with --features cuda",
            );
        } else {
            match &probe.cuda_error {
                None => report.note(Level::Fine, "CUDA device is available"),
                Some(e) => {
                    let mut m =
                        "CUDA was requested, but Candle could not open CUDA device 0: ".to_owned();
                    m.push_str(e.as_str());
                    report.note(Level::Error, m.as_str());
                },
            }
        }
    } else if same(requested, "mps") {
        match &probe.metal_error {
            None => report.note(Level::Fine, "Metal/MPS device is available"),
            Some(e) => {
                let mut m =
                    "MPS was requested, but Candle could not open Metal device 0: ".to_owned();
                m.push_str(e.as_str());
                report.note(Level::Error, m.as_str());
            },
        }
    } else if same(requested, "cpu") {
        report.note(Level::Fine, "CPU device selected");
    } else if same(requested, "auto") {
        let mut m = "auto device resolved to ".to_owned();
        m.push_str(resolved.as_str());
        report.note(Level::Fine, m.as_str());
    } else {
        let m = text3("Unsupported device '", requested, "'; expected auto, cuda, cpu, or mps");
        report.note(Level::Error, m.as_str());
    }
}

/// What reading a model file came to.
pub struct ModelFile {
    pub is_file: bool,
    /// The number of tensors, or why the header cannot be read.
    pub header: Result<usize, String>,
}

/// What is found of the header of a model file.
pub open spec fn header_finding(
    label: Seq<char>,
    path: Seq<char>,
    header: Result<usize, String>,
) -> (Level, Seq<char>) {
    match header {
        Ok(n) => (
            Level::Fine,
            label + " safetensors header is readable: "@ + path + " ("@ + (decimal(n as nat)
                + " tensor entries)"@),
        ),
        Err(e) => (
            Level::Error,
            label + " safetensors header is not readable: "@ + path + " ("@ + (e@ + ")"@),
        ),
    }
}

/// What is found of a model file: that it is missing; that it is a checkpoint; or what its
/// extension and its header say.
pub open spec fn model_findings(
    label: Seq<char>,
    path: Seq<char>,
    required: bool,
    file: ModelFile,
) -> Seq<(Level, Seq<char>)> {
    if !file.is_file {
        seq![
            (
                if required {
                    Level::Error
                } else {
                    Level::Warn
                },
                label + " model file does not exist: "@ + path,
            ),
        ]
    } else {
        match extension_of(path) {
            Some(e) => if e == "safetensors"@ {
                seq![header_finding(label, path, file.header)]
            } else if e == "ckpt"@ || e == "pth"@ {
                seq![
                    (
                        Level::Error,
                        label
                            + " points to a raw PyTorch checkpoint, not a runtime model: "@
                            + path + ". Convert it to safetensors first."@,
                    ),
                ]
            } else {
                seq![
                    (
                        Level::Warn,
                        label + " model extension is ."@ + e + "; expected .safetensors: "@
                            + path,
                    ),
                    header_finding(label, path, file.header),
                ]
            },
            None => seq![
                (
                    Level::Warn,
                    label + " model has no file extension; expected .safetensors: "@ + path,
                ),
                header_finding(label, path, file.header),
            ],
        }
    }
}

/// Checks a model file.
pub fn check_safetensors(
    report: &mut DoctorReport,
    label: &str,
    path: &str,
    required: bool,
    file: &ModelFile,
)
    ensures
        final(report).seen() == old(report).seen() + model_findings(label@, path@, required, *file),
{
    let ghost before = report.seen();
    let ghost found = model_findings(label@, path@, required, *file);
    if !file.is_file {
        let message = text3(label, " model file does not exist: ", path);
        report.note(
            if required {
                Level::Error
            } else {
                Level::Warn
            },
            message.as_str(),
        );
        assert(report.seen() =~= before + found);
        return;
    }
    match extension(path) {
        Some(e) => {
            if same(e.as_str(), "safetensors") {
            } else if same(e.as_str(), "ckpt") || same(e.as_str(), "pth") {
                let mut message = text3(
                    label,
                    " points to a raw PyTorch checkpoint, not a runtime model: ",
                    path,
                );
                message.push_str(". Convert it to safetensors first.");
                report.note(Level::Error, message.as_str());
                assert(report.seen() =~= before + found);
                return;
            } else {
                let message = text5(
                    label,
                    " model extension is .",
                    e.as_str(),
                    "; expected .safetensors: ",
                    path,
                );
                report.note(Level::Warn, message.as_str());
            }
        },
        None => {
            let message = text3(
                label,
                " model has no file extension; expected .safetensors: ",
                path,
            );
            report.note(Level::Warn, message.as_str());
        },
    }
    match &file.header {
        Ok(n) => {
            let mut count = decimal_string(*n as u64);
            count.push_str(" tensor entries)");
            let message = text5(
                label,
                " safetensors header is readable: ",
                path,
                " (",
                count.as_str(),
            );
            report.note(Level::Fine, message.as_str());
        },
        Err(e) => {
            let mut reason = e.as_str().to_owned();
            reason.push_str(")");
            let message = text5(
                label,
                " safetensors header is not readable: ",
                path,
                " (",
                reason.as_str(),
            );
            report.note(Level::Error, message.as_str());
        },
    }
    assert(report.seen() =~= before + found);
}

/// The longest header of a safetensors file that is read, in bytes.
pub const MAX_HEADER_LEN: u64 = 67_108_864;

/// A 64-bit number from its bytes, the low ones first.
pub open spec fn number_of(bytes: Seq<u8>) -> nat
    decreases bytes.len(),
{
    if bytes.len() == 0 {
        0
    } else {
        bytes[0] as nat + 256 * number_of(bytes.skip(1))
    }
}

/// The number that eight bytes spell, the lowest byte first.
pub fn eight_bytes(bytes: &[u8]) -> (n: u64)
    requires
        bytes@.len() == 8,
    ensures
        n == number_of(bytes@),
{
    let mut n: u64 = 0;
    let mut i: usize = 8;
    assert(bytes@.skip(8) =~= Seq::empty());
    while i > 0
        invariant
            i <= 8,
            bytes@.len() == 8,
            n == number_of(bytes@.skip(i as int)),
            i == 8 ==> n == 0,
            i == 7 ==> n < 0x100,
            i == 6 ==> n < 0x1_0000,
            i == 5 ==> n < 0x100_0000,
            i == 4 ==> n < 0x1_0000_0000,
            i == 3 ==> n < 0x100_0000_0000,
            i == 2 ==> n < 0x1_0000_0000_0000,
            i == 1 ==> n < 0x100_0000_0000_0000,
        decreases i,
    {
        assert(bytes@.skip(i - 1).skip(1) =~= bytes@.skip(i as int));
        n = bytes[i - 1] as u64 + 256 * n;
        i = i - 1;
    }
    assert(bytes@.skip(0) =~= bytes@);
    n
}

/// The length of the header of a safetensors file by its first eight bytes; one of no bytes
/// or too many is refused.
pub fn header_length(bytes: &Vec<u8>) -> (r: Result<u64, String>)
    requires
        bytes@.len() == 8,
    ensures
        match r {
            Ok(n) => n == number_of(bytes@) && 0 < n <= MAX_HEADER_LEN,
            Err(e) => (number_of(bytes@) == 0 || number_of(bytes@) > MAX_HEADER_LEN) && e@
                == "invalid safetensors header length: "@ + decimal(number_of(bytes@)),
        },
{
    let n: u64 = eight_bytes(bytes.as_slice());
    if n == 0 || n > MAX_HEADER_LEN {
        let mut message = "invalid safetensors header length: ".to_owned();
        message.push_str(decimal_string(n).as_str());
        return Err(message);
    }
    Ok(n)
}

/// The keys of the object that JSON bytes stand for, nothing where they stand for another
/// value, or why they are no JSON, as `serde_json::from_slice` has it.
pub uninterp spec fn json_keys(bytes: Seq<u8>) -> Result<Option<Seq<Seq<char>>>, Seq<char>>;

/// `serde_json::from_slice` reads a JSON value, and `Value::as_object` and `Map::keys` give
/// the keys of an object.
#[verifier::external_body]
fn read_json_keys(bytes: &Vec<u8>) -> (r: Result<Option<Vec<String>>, String>)
    ensures
        match r {
            Ok(Some(keys)) => json_keys(bytes@) == Ok::<Option<Seq<Seq<char>>>, Seq<char>>(
                Some(views(keys@)),
            ),
            Ok(None) => json_keys(bytes@) == Ok::<Option<Seq<Seq<char>>>, Seq<char>>(None),
            Err(e) => json_keys(bytes@) == Err::<Option<Seq<Seq<char>>>, Seq<char>>(e@),
        },
{
    match serde_json::from_slice::<serde_json::Value>(bytes) {
        Ok(value) => Ok(value.as_object().map(|o| o.keys().cloned().collect())),
        Err(e) => Err(e.to_string()),
    }
}

/// How many of the keys name tensors: all but the metadata.
pub open spec fn tensor_count(keys: Seq<Seq<char>>) -> nat
    decreases keys.len(),
{
    if keys.len() == 0 {
        0
    } else {
        tensor_count(keys.drop_last()) + (if keys.last() != "__metadata__"@ {
            1nat
        } else {
            0nat
        })
    }
}

/// How many of the keys name tensors.
pub fn count_tensors(keys: &Vec<String>) -> (r: usize)
    ensures
        r == tensor_count(views(keys@)),
{
    let ghost all = views(keys@);
    let mut n: usize = 0;
    for i in 0..keys.len()
        invariant
            all == views(keys@),
            n == tensor_count(all.take(i as int)),
            n <= i,
    {
        assert(all.take(i + 1).drop_last() =~= all.take(i as int));
        assert(all.take(i + 1).last() == keys@[i as int]@);
        if !same(keys[i].as_str(), "__metadata__") {
            n = n + 1;
        }
    }
    assert(all.take(all.len() as int) =~= all);
    n
}

/// How many tensors the header of a safetensors file names.
pub fn header_count(header: &Vec<u8>) -> (r: Result<usize, String>)
    ensures
        match json_keys(header@) {
            Ok(Some(keys)) => r matches Ok(n) && n == tensor_count(keys),
            Ok(None) => r matches Err(e) && e@ == "safetensors header is not a JSON object"@,
            Err(m) => r matches Err(e) && e@ == m,
        },
{
    match read_json_keys(header) {
        Ok(Some(keys)) => Ok(count_tensors(&keys)),
        Ok(None) => Err("safetensors header is not a JSON object".to_owned()),
        Err(e) => Err(e),
    }
}

/// The tokenizer that is used where none stands beside the BERT model.
pub open spec fn fallback_tokenizer() -> Seq<char> {
    "models/bert/tokenizer.json"@
}

/// Checks the tokenizer of the BERT model: beside it, else at the usual place.
pub fn check_bert_tokenizer(
    report: &mut DoctorReport,
    bert_path: &str,
    sibling_is_file: bool,
    fallback_is_file: bool,
)
    ensures
        final(report).seen() == old(report).seen().push(
            tokenizer_finding(bert_path@, sibling_is_file, fallback_is_file),
        ),
{
    if sibling_is_file {
        let mut m = "BERT tokenizer found: ".to_owned();
        m.push_str(sibling(bert_path, "tokenizer.json").as_str());
        report.note(Level::Fine, m.as_str());
    } else if fallback_is_file {
        let mut m = "BERT tokenizer found through fallback: ".to_owned();
        m.push_str("models/bert/tokenizer.json");
        report.note(Level::Fine, m.as_str());
    } else {
        let mut m = text3(
            "BERT tokenizer not found. Put tokenizer.json next to ",
            bert_path,
            " or at ",
        );
        m.push_str("models/bert/tokenizer.json");
        report.note(Level::Error, m.as_str());
    }
}

/// What reading the model files came to.
pub struct ModelFiles {
    pub gpt: ModelFile,
    pub sovits: ModelFile,
    pub bert: ModelFile,
    pub hubert: ModelFile,
    /// Whether there is a tokenizer beside the BERT model.
    pub sibling_tokenizer: bool,
    /// Whether there is a tokenizer at the usual place.
    pub fallback_tokenizer: bool,
}

/// What is found of the tokenizer of the BERT model.
pub open spec fn tokenizer_finding(
    bert_path: Seq<char>,
    sibling_is_file: bool,
    fallback_is_file: bool,
) -> (Level, Seq<char>) {
    if sibling_is_file {
        (Level::Fine, "BERT tokenizer found: "@ + beside(bert_path, "tokenizer.json"@))
    } else if fallback_is_file {
        (Level::Fine, "BERT tokenizer found through fallback: "@ + fallback_tokenizer())
    } else {
        (
            Level::Error,
            "BERT tokenizer not found. Put tokenizer.json next to "@ + bert_path + " or at "@
                + fallback_tokenizer(),
        )
    }
}

/// What is found of the BERT model and its tokenizer.
pub open spec fn bert_findings(paths: ModelPaths, files: ModelFiles) -> Seq<(Level, Seq<char>)> {
    match paths.bert {
        Some(path) => model_findings("BERT"@, path@, false, files.bert).push(
            tokenizer_finding(path@, files.sibling_tokenizer, files.fallback_tokenizer),
        ),
        None => seq![(Level::Warn, "BERT model not found; speech quality will be reduced"@)],
    }
}

/// What is found of the HuBERT model.
pub open spec fn hubert_findings(paths: ModelPaths, files: ModelFiles) -> Seq<(Level, Seq<char>)> {
    match paths.hubert {
        Some(path) => model_findings("HuBERT"@, path@, false, files.hubert),
        None => seq![(Level::Warn, "HuBERT model not found; voice similarity will be reduced"@)],
    }
}

/// What is found of the models that were discovered.
pub open spec fn found_models(paths: ModelPaths, files: ModelFiles) -> Seq<(Level, Seq<char>)> {
    model_findings("GPT"@, paths.gpt@, true, files.gpt) + model_findings(
        "SoVITS"@,
        paths.sovits@,
        true,
        files.sovits,
    ) + bert_findings(paths, files) + hubert_findings(paths, files)
}

/// What is found of the models, or that they were not discovered.
pub open spec fn models_found(discovered: Result<ModelPaths, String>, files: ModelFiles) -> Seq<
    (Level, Seq<char>),
> {
    match discovered {
        Ok(paths) => found_models(paths, files),
        Err(e) => seq![(Level::Error, e@)],
    }
}

/// What is found of the models: of the directory, then of each model that was discovered.
pub open spec fn models_findings(
    models_dir: Seq<char>,
    is_dir: bool,
    discovered: Result<ModelPaths, String>,
    files: ModelFiles,
) -> Seq<(Level, Seq<char>)> {
    let dir = if is_dir {
        (Level::Fine, "models directory exists: "@ + models_dir)
    } else {
        (Level::Warn, "models directory does not exist yet: "@ + models_dir)
    };
    seq![dir] + models_found(discovered, files)
}

/// Checks the models.
pub fn check_models(
    report: &mut DoctorReport,
    models_dir: &str,
    is_dir: bool,
    discovered: &Result<ModelPaths, String>,
    files: &ModelFiles,
)
    ensures
        final(report).seen() == old(report).seen() + models_findings(
            models_dir@,
            is_dir,
            *discovered,
            *files,
        ),
{
    let ghost before = report.seen();
    check_models_dir(report, models_dir, is_dir);
    let ghost dir = report.seen().last();
    assert(before.push(dir) =~= before + seq![dir]);
    match discovered {
        Ok(paths) => check_found_models(report, paths, files),
        Err(e) => report.note(Level::Error, e.as_str()),
    }
    proof {
        lemma_appended(before, dir, models_found(*discovered, *files));
    }
}

/// Appending piece by piece is appending the pieces.
proof fn lemma_appended(
    before: Seq<(Level, Seq<char>)>,
    first: (Level, Seq<char>),
    rest: Seq<(Level, Seq<char>)>,
)
    ensures
        before.push(first) + rest == before + (seq![first] + rest),
{
    assert(before.push(first) + rest =~= before + (seq![first] + rest));
}

/// Appending four pieces is appending what they make up.
proof fn lemma_four_pieces(
    before: Seq<(Level, Seq<char>)>,
    a: Seq<(Level, Seq<char>)>,
    b: Seq<(Level, Seq<char>)>,
    c: Seq<(Level, Seq<char>)>,
    d: Seq<(Level, Seq<char>)>,
)
    ensures
        before + a + b + c + d == before + (a + b + c + d),
{
    assert(before + a + b + c + d =~= before + (a + b + c + d));
}

/// Appending a piece and one finding more is appending both.
proof fn lemma_one_more(
    before: Seq<(Level, Seq<char>)>,
    a: Seq<(Level, Seq<char>)>,
    last: (Level, Seq<char>),
)
    ensures
        (before + a).push(last) == before + a.push(last),
        before.push(last) == before + seq![last],
{
    assert((before + a).push(last) =~= before + a.push(last));
    assert(before.push(last) =~= before + seq![last]);
}

/// Checks the models that were discovered.
fn check_found_models(report: &mut DoctorReport, paths: &ModelPaths, files: &ModelFiles)
    ensures
        final(report).seen() == old(report).seen() + found_models(*paths, *files),
{
    let ghost before = report.seen();
    check_safetensors(report, "GPT", paths.gpt.as_str(), true, &files.gpt);
    check_safetensors(report, "SoVITS", paths.sovits.as_str(), true, &files.sovits);
    let ghost two = report.seen();
    match &paths.bert {
        Some(path) => {
            check_safetensors(report, "BERT", path.as_str(), false, &files.bert);
            check_bert_tokenizer(
                report,
                path.as_str(),
                files.sibling_tokenizer,
                files.fallback_tokenizer,
            );
            proof {
                lemma_one_more(
                    two,
                    model_findings("BERT"@, path@, false, files.bert),
                    tokenizer_finding(path@, files.sibling_tokenizer, files.fallback_tokenizer),
                );
            }
        },
        None => {
            report.note(Level::Warn, "BERT model not found; speech quality will be reduced");
            proof {
                lemma_one_more(two, Seq::empty(), report.seen().last());
            }
        },
    }
    let ghost three = report.seen();
    match &paths.hubert {
        Some(path) => check_safetensors(report, "HuBERT", path.as_str(), false, &files.hubert),
        None => {
            report.note(Level::Warn, "HuBERT model not found; voice similarity will be reduced");
            proof {
                lemma_one_more(three, Seq::empty(), report.seen().last());
            }
        },
    }
    proof {
        lemma_four_pieces(
            before,
            model_findings("GPT"@, paths.gpt@, true, files.gpt),
            model_findings("SoVITS"@, paths.sovits@, true, files.sovits),
            bert_findings(*paths, *files),
            hubert_findings(*paths, *files),
        );
    }
}

/// Checks the models directory.
pub fn check_models_dir(report: &mut DoctorReport, models_dir: &str, is_dir: bool)
    ensures
        final(report).seen() == old(report).seen().push(
            if is_dir {
                (Level::Fine, "models directory exists: "@ + models_dir@)
            } else {
                (Level::Warn, "models directory does not exist yet: "@ + models_dir@)
            },
        ),
{
    if is_dir {
        let mut m = "models directory exists: ".to_owned();
        m.push_str(models_dir);
        report.note(Level::Fine, m.as_str());
    } else {
        let mut m = "models directory does not exist yet: ".to_owned();
        m.push_str(models_dir);
        report.note(Level::Warn, m.as_str());
    }
}

/// What is found of the list of voices.
pub open spec fn list_finding(voices_dir: Seq<char>, voices: Result<Vec<String>, String>) -> (
    Level,
    Seq<char>,
) {
    match voices {
        Ok(v) => if v@.len() == 0 {
            (
                Level::Warn,
                "no voice profiles found in "@ + voices_dir
                    + "; create voices/<name>/voice.json or pass --reference-audio and --reference-text"@,
            )
        } else {
            (
                Level::Fine,
                "found "@ + decimal(v@.len()) + " voice profile(s) in "@ + voices_dir
                    + ": "@ + join(views(v@), ", "@),
            )
        },
        Err(e) => (Level::Error, e@),
    }
}

/// Checks the list of voices.
pub fn check_voice_list(
    report: &mut DoctorReport,
    voices_dir: &str,
    voices: &Result<Vec<String>, String>,
)
    ensures
        final(report).seen() == old(report).seen().push(list_finding(voices_dir@, *voices)),
{
    match voices {
        Ok(v) => {
            if v.len() == 0 {
                let m = text3(
                    "no voice profiles found in ",
                    voices_dir,
                    "; create voices/<name>/voice.json or pass --reference-audio and --reference-text",
                );
                report.note(Level::Warn, m.as_str());
            } else {
                let mut m = text5(
                    "found ",
                    decimal_string(v.len() as u64).as_str(),
                    " voice profile(s) in ",
                    voices_dir,
                    ": ",
                );
                m.push_str(join_strings(v, ", ").as_str());
                report.note(Level::Fine, m.as_str());
            }
        },
        Err(e) => report.note(Level::Error, e.as_str()),
    }
}

/// What reading reference audio came to.
pub struct ReferenceFile {
    pub is_file: bool,
    /// The duration in seconds and as it is to be shown, the sample rate and the channels;
    /// or why the file cannot be read.
    pub wav: Result<(F32, String, u32, u16), String>,
}

/// Whether a duration is from 3 to 10 seconds.
pub open spec fn is_good_length(duration: F32) -> bool {
    !less(duration, F32 { bits: 0x4040_0000 }) && !less(F32 { bits: 0x4120_0000 }, duration)
        && !crate::float_bits::is_nan(duration)
}

/// What is found of reference audio.
pub open spec fn audio_findings(path: Seq<char>, file: ReferenceFile) -> Seq<(Level, Seq<char>)> {
    if !file.is_file {
        seq![(Level::Error, "reference audio does not exist: "@ + path)]
    } else {
        (if extension_of(path) == Some("wav"@) {
            Seq::empty()
        } else {
            seq![
                (
                    Level::Warn,
                    "reference audio is not a .wav file; current CLI path expects WAV: "@ + path,
                ),
            ]
        }).push(
            match file.wav {
                Ok((duration, shown, rate, channels)) => {
                    let line = "reference audio: "@ + path + " ("@ + shown@ + "s, "@ + decimal(
                        rate as nat,
                    ) + " Hz, "@ + decimal(channels as nat) + " channel(s))"@;
                    if is_good_length(duration) {
                        (Level::Fine, line)
                    } else {
                        (Level::Warn, line + "; recommended reference length is 3-10s"@)
                    }
                },
                Err(e) => (
                    Level::Error,
                    "reference audio is not readable as WAV: "@ + path + " ("@ + e@ + ")"@,
                ),
            },
        )
    }
}

/// Checks reference audio.
pub fn check_reference_audio(report: &mut DoctorReport, path: &str, file: &ReferenceFile)
    ensures
        final(report).seen() == old(report).seen() + audio_findings(path@, *file),
{
    let ghost before = report.seen();
    let ghost found = audio_findings(path@, *file);
    if !file.is_file {
        let mut m = "reference audio does not exist: ".to_owned();
        m.push_str(path);
        report.note(Level::Error, m.as_str());
        assert(report.seen() =~= before + found);
        return;
    }
    let is_wav = match extension(path) {
        Some(e) => same(e.as_str(), "wav"),
        None => false,
    };
    if !is_wav {
        let mut m =
            "reference audio is not a .wav file; current CLI path expects WAV: ".to_owned();
        m.push_str(path);
        report.note(Level::Warn, m.as_str());
    }
    match &file.wav {
        Ok((duration, shown, rate, channels)) => {
            let mut m = text5("reference audio: ", path, " (", shown.as_str(), "s, ");
            m.push_str(decimal_string(*rate as u64).as_str());
            m.push_str(" Hz, ");
            m.push_str(decimal_string(*channels as u64).as_str());
            m.push_str(" channel(s))");
            let good = !duration.lt(F32 { bits: 0x4040_0000 }) && !(F32 { bits: 0x4120_0000 }).lt(
                *duration,
            ) && !duration.nan();
            if good {
                report.note(Level::Fine, m.as_str());
            } else {
                m.push_str("; recommended reference length is 3-10s");
                report.note(Level::Warn, m.as_str());
            }
        },
        Err(e) => {
            let m = text5(
                "reference audio is not readable as WAV: ",
                path,
                " (",
                e.as_str(),
                ")",
            );
            report.note(Level::Error, m.as_str());
        },
    }
    assert(report.seen() =~= before + found);
}

/// Checks reference text.
pub fn check_reference_text(report: &mut DoctorReport, text: &str)
    ensures
        final(report).seen() == old(report).seen().push(text_finding(text@)),
{
    let chars: usize = chars_of(trim(text).as_str()).len();
    if chars == 0 {
        report.note(Level::Error, "reference_text is empty");
    } else {
        let m = text3(
            "reference_text is present (",
            decimal_string(chars as u64).as_str(),
            " chars)",
        );
        report.note(Level::Fine, m.as_str());
    }
}

/// A voice that was loaded, as far as it is checked.
pub struct CheckedVoice {
    pub name: String,
    /// The path of its profile.
    pub profile: String,
    pub reference_audio: Option<(String, ReferenceFile)>,
    pub reference_text: Option<String>,
}

/// What a test run would speak with.
pub enum VoiceChoice {
    /// A voice by its name, or why it cannot be loaded.
    Named(Result<CheckedVoice, String>),
    /// Reference audio and text by themselves.
    Inline { audio: Option<(String, ReferenceFile)>, text: Option<String> },
}

/// What is found of reference text.
pub open spec fn text_finding(text: Seq<char>) -> (Level, Seq<char>) {
    if trimmed(text).len() == 0 {
        (Level::Error, "reference_text is empty"@)
    } else {
        (
            Level::Fine,
            "reference_text is present ("@ + decimal(trimmed(text).len()) + " chars)"@,
        )
    }
}

/// What is found of a voice.
pub open spec fn loaded_voice_findings(voice: CheckedVoice) -> Seq<(Level, Seq<char>)> {
    seq![(Level::Fine, "voice profile '"@ + voice.name@ + "' parsed: "@ + voice.profile@)]
        + (match voice.reference_audio {
        Some((path, file)) => audio_findings(path@, file),
        None => seq![
            (Level::Error, "voice '"@ + voice.name@ + "' does not set reference_audio"@),
        ],
    }).push(
        match voice.reference_text {
            Some(text) => text_finding(text@),
            None => (Level::Error, "voice '"@ + voice.name@ + "' does not set reference_text"@),
        },
    )
}

/// What is found of what a test run would speak with.
pub open spec fn choice_findings(choice: VoiceChoice) -> Seq<(Level, Seq<char>)> {
    match choice {
        VoiceChoice::Named(Ok(voice)) => loaded_voice_findings(voice),
        VoiceChoice::Named(Err(e)) => seq![(Level::Error, e@)],
        VoiceChoice::Inline { audio, text } => (match audio {
            Some((path, file)) => audio_findings(path@, file),
            None => Seq::empty(),
        }) + (match text {
            Some(t) => seq![text_finding(t@)],
            None => Seq::empty(),
        }) + if audio is None && text is None {
            seq![
                (
                    Level::Warn,
                    "no --voice or inline reference audio/text selected for a test run"@,
                ),
            ]
        } else {
            Seq::empty()
        },
    }
}

/// Checks a voice that was loaded.
pub fn check_loaded_voice(report: &mut DoctorReport, voice: &CheckedVoice)
    ensures
        final(report).seen() == old(report).seen() + loaded_voice_findings(*voice),
{
    let ghost before = report.seen();
    let mut parsed = text3("voice profile '", voice.name.as_str(), "' parsed: ");
    parsed.push_str(voice.profile.as_str());
    report.note(Level::Fine, parsed.as_str());
    match &voice.reference_audio {
        Some((path, file)) => check_reference_audio(report, path.as_str(), file),
        None => {
            let m = text3("voice '", voice.name.as_str(), "' does not set reference_audio");
            report.note(Level::Error, m.as_str());
        },
    }
    match &voice.reference_text {
        Some(text) => check_reference_text(report, text.as_str()),
        None => {
            let m = text3("voice '", voice.name.as_str(), "' does not set reference_text");
            report.note(Level::Error, m.as_str());
        },
    }
    assert(report.seen() =~= before + loaded_voice_findings(*voice));
}

/// Checks the voices: the list of them, and what a test run would speak with.
pub fn check_voices(
    report: &mut DoctorReport,
    voices_dir: &str,
    voices: &Result<Vec<String>, String>,
    choice: &VoiceChoice,
)
    ensures
        final(report).seen() == old(report).seen().push(list_finding(voices_dir@, *voices))
            + choice_findings(*choice),
{
    let ghost before = report.seen();
    check_voice_list(report, voices_dir, voices);
    match choice {
        VoiceChoice::Named(Ok(voice)) => check_loaded_voice(report, voice),
        VoiceChoice::Named(Err(e)) => report.note(Level::Error, e.as_str()),
        VoiceChoice::Inline { audio, text } => {
            match audio {
                Some((path, file)) => check_reference_audio(report, path.as_str(), file),
                None => {},
            }
            match text {
                Some(t) => check_reference_text(report, t.as_str()),
                None => {},
            }
            if audio.is_none() && text.is_none() {
                report.note(
                    Level::Warn,
                    "no --voice or inline reference audio/text selected for a test run",
                );
            }
        },
    }
    assert(report.seen() =~= before.push(list_finding(voices_dir@, *voices)) + choice_findings(
        *choice,
    ));
}

/// Each finding counts once: as fine, as a warning or as an error.
pub proof fn levels_add_up(findings: Seq<(Level, Seq<char>)>)
    ensures
        tally(findings, Level::Fine) + tally(findings, Level::Warn) + tally(findings, Level::Error)
            == findings.len(),
    decreases findings.len(),
{
    if findings.len() > 0 {
        levels_add_up(findings.drop_last());
    }
}

/// A finding is counted at its own level and at no other.
pub proof fn findings_are_counted_one_by_one(
    findings: Seq<(Level, Seq<char>)>,
    finding: (Level, Seq<char>),
    level: Level,
)
    ensures
        tally(findings.push(finding), level) == tally(findings, level) + if finding.0 == level {
            1nat
        } else {
            0nat
        },
        tally(Seq::empty(), level) == 0,
{
    assert(findings.push(finding).drop_last() =~= findings);
}

/// A model file is an error where it is missing although it is required, where it is a raw
/// checkpoint, and where its header cannot be read; and in no other case.
pub proof fn models_fail_for_a_reason(
    label: Seq<char>,
    path: Seq<char>,
    required: bool,
    file: ModelFile,
)
    ensures
        ({
            let raw = extension_of(path) == Some("ckpt"@) || extension_of(path) == Some("pth"@);
            let fails = if file.is_file {
                raw || file.header is Err
            } else {
                required
            };
            tally(model_findings(label, path, required, file), Level::Error) == if fails {
                1nat
            } else {
                0nat
            }
        }),
        !file.is_file && !required ==> tally(
            model_findings(label, path, required, file),
            Level::Warn,
        ) == 1,
{
    reveal_strlit("ckpt");
    reveal_strlit("pth");
    reveal_strlit("safetensors");
    assert("ckpt"@.len() == 4 && "pth"@.len() == 3 && "safetensors"@.len() == 11);
    let found = model_findings(label, path, required, file);
    let none = Seq::<(Level, Seq<char>)>::empty();
    findings_are_counted_one_by_one(none, found[0], Level::Error);
    findings_are_counted_one_by_one(none, found[0], Level::Warn);
    if found.len() == 1 {
        assert(found =~= none.push(found[0]));
    } else {
        findings_are_counted_one_by_one(none.push(found[0]), found[1], Level::Error);
        assert(found =~= none.push(found[0]).push(found[1]));
    }
}

/// Bytes stand for a number with the low ones first: each counts 256 times as much as the one
/// before it.
pub proof fn bytes_count_by_their_place(bytes: Seq<u8>, low: u8)
    ensures
        number_of(seq![low] + bytes) == low + 256 * number_of(bytes),
        number_of(Seq::empty()) == 0,
{
    assert((seq![low] + bytes).skip(1) =~= bytes);
}

/// All keys but the metadata count as tensors.
pub proof fn keys_are_counted_one_by_one(keys: Seq<Seq<char>>, key: Seq<char>)
    ensures
        tensor_count(keys.push(key)) == tensor_count(keys) + if key == "__metadata__"@ {
            0nat
        } else {
            1nat
        },
        tensor_count(Seq::empty()) == 0,
{
    assert(keys.push(key).drop_last() =~= keys);
}

/// A device is an error where it is unknown or cannot be opened, and never where the CPU or any
/// device was asked for.
pub proof fn devices_fail_for_a_reason(requested: Seq<char>, resolved: Device, probe: DeviceProbe)
    ensures
        device_finding("cpu"@, resolved, probe).0 == Level::Fine,
        device_finding("auto"@, resolved, probe).0 == Level::Fine,
        device_finding("cuda"@, resolved, probe).0 == Level::Fine <==> probe.cuda_compiled
            && probe.cuda_error is None,
        device_finding("mps"@, resolved, probe).0 == Level::Fine <==> probe.metal_error is None,
        device_finding(requested, resolved, probe).0 != Level::Warn,
        requested != "cpu"@ && requested != "auto"@ && requested != "cuda"@ && requested != "mps"@
            ==> device_finding(requested, resolved, probe).0 == Level::Error,
{
    reveal_strlit("cpu");
    reveal_strlit("auto");
    reveal_strlit("cuda");
    reveal_strlit("mps");
    assert("cpu"@.len() == 3 && "mps"@.len() == 3 && "auto"@.len() == 4 && "cuda"@.len() == 4);
    assert("cpu"@[0] == 'c' && "mps"@[0] == 'm' && "auto"@[0] == 'a' && "cuda"@[0] == 'c');
}

/// A tokenizer is found beside the model or at its place, and a reference text is present where
/// it holds more than white space.
pub proof fn tokenizers_and_texts_are_needed(
    bert_path: Seq<char>,
    sibling: bool,
    fallback: bool,
    text: Seq<char>,
)
    ensures
        tokenizer_finding(bert_path, sibling, fallback).0 == Level::Fine <==> sibling || fallback,
        tokenizer_finding(bert_path, sibling, fallback).0 != Level::Warn,
        text_finding(text).0 == Level::Fine <==> trimmed(text).len() > 0,
        text_finding(text).0 != Level::Warn,
{
}

} // verus!
