//! Conventional model layout discovery.

use crate::inference::options::text_view;
use crate::strings::{chars_of, same, views};
use vstd::prelude::*;

verus! {

/// Paths that take the place of the conventional ones.
#[derive(Debug)]
pub struct ModelPathOverrides {
    pub gpt: Option<String>,
    pub sovits: Option<String>,
    pub bert: Option<String>,
    pub hubert: Option<String>,
}

impl Default for ModelPathOverrides {
    fn default() -> (r: Self)
        ensures
            r == (ModelPathOverrides { gpt: None, sovits: None, bert: None, hubert: None }),
    {
        ModelPathOverrides { gpt: None, sovits: None, bert: None, hubert: None }
    }
}

/// The paths of the models.
#[derive(Debug, PartialEq, Eq)]
pub struct ModelPaths {
    pub gpt: String,
    pub sovits: String,
    pub bert: Option<String>,
    pub hubert: Option<String>,
}

/// A relative path below a directory.
pub open spec fn below(dir: Seq<char>, path: Seq<char>) -> Seq<char> {
    if dir.len() == 0 {
        path
    } else if dir.last() == '/' {
        dir + path
    } else {
        dir + "/"@ + path
    }
}

/// A relative path below a directory.
pub fn join_path(dir: &str, path: &str) -> (r: String)
    ensures
        r@ == below(dir@, path@),
{
    let chars = chars_of(dir);
    if chars.len() == 0 {
        return path.to_owned();
    }
    let mut r = dir.to_owned();
    if chars[chars.len() - 1] != '/' {
        r.push_str("/");
    }
    r.push_str(path);
    r
}

/// The first of two candidates that is a file.
pub open spec fn first_file(
    files: Seq<Seq<char>>,
    dir: Seq<char>,
    first: Seq<char>,
    second: Seq<char>,
) -> Option<Seq<char>> {
    if files.contains(below(dir, first)) {
        Some(below(dir, first))
    } else if files.contains(below(dir, second)) {
        Some(below(dir, second))
    } else {
        None
    }
}

/// What is said of a chosen model that is no file.
pub open spec fn no_such_file(name: Seq<char>, path: Seq<char>) -> Seq<char> {
    name + " model file does not exist: "@ + path
}

/// What is said of a required model that was not found.
pub open spec fn not_found(
    name: Seq<char>,
    expected: Seq<char>,
    flag: Seq<char>,
) -> Seq<char> {
    name + " model not found. Put it at "@ + expected + " or pass "@ + flag + " <PATH>"@
}

/// The path of a model that may be missing: the chosen one, which must be a file, else the
/// first of two candidates that is a file.
pub open spec fn optional_path(
    files: Seq<Seq<char>>,
    name: Seq<char>,
    dir: Seq<char>,
    chosen: Option<Seq<char>>,
    first: Seq<char>,
    second: Seq<char>,
) -> Result<Option<Seq<char>>, Seq<char>> {
    match chosen {
        Some(path) => if files.contains(path) {
            Ok(Some(path))
        } else {
            Err(no_such_file(name, path))
        },
        None => Ok(first_file(files, dir, first, second)),
    }
}

/// The path of a required model.
pub open spec fn required_path(
    files: Seq<Seq<char>>,
    name: Seq<char>,
    dir: Seq<char>,
    chosen: Option<Seq<char>>,
    candidate: Seq<char>,
    flag: Seq<char>,
) -> Result<Seq<char>, Seq<char>> {
    match optional_path(files, name, dir, chosen, candidate, candidate) {
        Ok(Some(path)) => Ok(path),
        Ok(None) => Err(not_found(name, below(dir, candidate), flag)),
        Err(e) => Err(e),
    }
}

/// Whether a path is one of the files.
fn is_file(files: &Vec<String>, path: &str) -> (r: bool)
    ensures
        r == views(files@).contains(path@),
{
    for i in 0..files.len()
        invariant
            forall|k: int| 0 <= k < i ==> (#[trigger] views(files@)[k]) != path@,
    {
        if same(files[i].as_str(), path) {
            assert(views(files@)[i as int] == path@);
            return true;
        }
    }
    false
}

/// The path of a model that may be missing.
pub fn resolve_optional(
    files: &Vec<String>,
    name: &str,
    models_dir: &str,
    explicit: Option<String>,
    first: &str,
    second: &str,
) -> (r: Result<Option<String>, String>)
    ensures
        ({
            let path = optional_path(
                views(files@),
                name@,
                models_dir@,
                text_view(explicit),
                first@,
                second@,
            );
            match r {
                Ok(p) => path == Ok::<Option<Seq<char>>, Seq<char>>(text_view(p)),
                Err(e) => path == Err::<Option<Seq<char>>, Seq<char>>(e@),
            }
        }),
{
    if let Some(path) = explicit {
        if is_file(files, path.as_str()) {
            return Ok(Some(path));
        }
        let mut message = name.to_owned();
        message.push_str(" model file does not exist: ");
        message.push_str(path.as_str());
        return Err(message);
    }
    let candidate = join_path(models_dir, first);
    if is_file(files, candidate.as_str()) {
        return Ok(Some(candidate));
    }
    let candidate = join_path(models_dir, second);
    if is_file(files, candidate.as_str()) {
        return Ok(Some(candidate));
    }
    Ok(None)
}

/// The path of a required model.
pub fn resolve_required(
    files: &Vec<String>,
    name: &str,
    models_dir: &str,
    explicit: Option<String>,
    candidate: &str,
    flag: &str,
) -> (r: Result<String, String>)
    ensures
        ({
            let path = required_path(
                views(files@),
                name@,
                models_dir@,
                text_view(explicit),
                candidate@,
                flag@,
            );
            match r {
                Ok(p) => path == Ok::<Seq<char>, Seq<char>>(p@),
                Err(e) => path == Err::<Seq<char>, Seq<char>>(e@),
            }
        }),
{
    match resolve_optional(files, name, models_dir, explicit, candidate, candidate) {
        Ok(Some(path)) => Ok(path),
        Ok(None) => {
            let mut message = name.to_owned();
            message.push_str(" model not found. Put it at ");
            message.push_str(join_path(models_dir, candidate).as_str());
            message.push_str(" or pass ");
            message.push_str(flag);
            message.push_str(" <PATH>");
            Err(message)
        },
        Err(e) => Err(e),
    }
}

/// The paths of the four models, or what is wrong with the first that is wrong.
pub open spec fn discovered(
    files: Seq<Seq<char>>,
    dir: Seq<char>,
    gpt: Option<Seq<char>>,
    sovits: Option<Seq<char>>,
    bert: Option<Seq<char>>,
    hubert: Option<Seq<char>>,
) -> Result<(Seq<char>, Seq<char>, Option<Seq<char>>, Option<Seq<char>>), Seq<char>> {
    match required_path(files, "GPT"@, dir, gpt, "gpt-model.safetensors"@, "--gpt-model"@) {
        Err(e) => Err(e),
        Ok(g) => match required_path(
            files,
            "SoVITS"@,
            dir,
            sovits,
            "sovits-model.safetensors"@,
            "--sovits-model"@,
        ) {
            Err(e) => Err(e),
            Ok(s) => match optional_path(
                files,
                "BERT"@,
                dir,
                bert,
                "bert/bert.safetensors"@,
                "bert.safetensors"@,
            ) {
                Err(e) => Err(e),
                Ok(b) => match optional_path(
                    files,
                    "HuBERT"@,
                    dir,
                    hubert,
                    "hubert/hubert.safetensors"@,
                    "hubert.safetensors"@,
                ) {
                    Err(e) => Err(e),
                    Ok(h) => Ok((g, s, b, h)),
                },
            },
        },
    }
}

impl ModelPaths {
    /// Finds the models below a directory, or where `overrides` has them. `files` are the
    /// paths, of those asked for by `probes`, that are files.
    pub fn discover(models_dir: &str, overrides: ModelPathOverrides, files: &Vec<String>) -> (r:
        Result<Self, String>)
        ensures
            ({
                let found = discovered(
                    views(files@),
                    models_dir@,
                    text_view(overrides.gpt),
                    text_view(overrides.sovits),
                    text_view(overrides.bert),
                    text_view(overrides.hubert),
                );
                match r {
                    Ok(p) => found == Ok::<
                        (Seq<char>, Seq<char>, Option<Seq<char>>, Option<Seq<char>>),
                        Seq<char>,
                    >((p.gpt@, p.sovits@, text_view(p.bert), text_view(p.hubert))),
                    Err(e) => found == Err::<
                        (Seq<char>, Seq<char>, Option<Seq<char>>, Option<Seq<char>>),
                        Seq<char>,
                    >(e@),
                }
            }),
    {
        let gpt = match resolve_required(
            files,
            "GPT",
            models_dir,
            overrides.gpt,
            "gpt-model.safetensors",
            "--gpt-model",
        ) {
            Ok(p) => p,
            Err(e) => {
                return Err(e);
            },
        };
        let sovits = match resolve_required(
            files,
            "SoVITS",
            models_dir,
            overrides.sovits,
            "sovits-model.safetensors",
            "--sovits-model",
        ) {
            Ok(p) => p,
            Err(e) => {
                return Err(e);
            },
        };
        let bert = match resolve_optional(
            files,
            "BERT",
            models_dir,
            overrides.bert,
            "bert/bert.safetensors",
            "bert.safetensors",
        ) {
            Ok(p) => p,
            Err(e) => {
                return Err(e);
            },
        };
        let hubert = match resolve_optional(
            files,
            "HuBERT",
            models_dir,
            overrides.hubert,
            "hubert/hubert.safetensors",
            "hubert.safetensors",
        ) {
            Ok(p) => p,
            Err(e) => {
                return Err(e);
            },
        };
        Ok(ModelPaths { gpt, sovits, bert, hubert })
    }

    /// The conventional paths below a directory that discovery looks at.
    pub fn probes(models_dir: &str) -> (r: Vec<String>)
        ensures
            views(r@) == seq![
                below(models_dir@, "gpt-model.safetensors"@),
                below(models_dir@, "sovits-model.safetensors"@),
                below(models_dir@, "bert/bert.safetensors"@),
                below(models_dir@, "bert.safetensors"@),
                below(models_dir@, "hubert/hubert.safetensors"@),
                below(models_dir@, "hubert.safetensors"@),
            ],
    {
        let mut r: Vec<String> = Vec::new();
        r.push(join_path(models_dir, "gpt-model.safetensors"));
        r.push(join_path(models_dir, "sovits-model.safetensors"));
        r.push(join_path(models_dir, "bert/bert.safetensors"));
        r.push(join_path(models_dir, "bert.safetensors"));
        r.push(join_path(models_dir, "hubert/hubert.safetensors"));
        r.push(join_path(models_dir, "hubert.safetensors"));
        assert(views(r@) =~= seq![
            below(models_dir@, "gpt-model.safetensors"@),
            below(models_dir@, "sovits-model.safetensors"@),
            below(models_dir@, "bert/bert.safetensors"@),
            below(models_dir@, "bert.safetensors"@),
            below(models_dir@, "hubert/hubert.safetensors"@),
            below(models_dir@, "hubert.safetensors"@),
        ]);
        r
    }
}

/// Discovery invents nothing: every path it finds is a file.
pub proof fn discovered_paths_are_files(
    files: Seq<Seq<char>>,
    dir: Seq<char>,
    gpt: Option<Seq<char>>,
    sovits: Option<Seq<char>>,
    bert: Option<Seq<char>>,
    hubert: Option<Seq<char>>,
)
    ensures
        match discovered(files, dir, gpt, sovits, bert, hubert) {
            Ok((g, s, b, h)) => {
                &&& files.contains(g)
                &&& files.contains(s)
                &&& b matches Some(p) ==> files.contains(p)
                &&& h matches Some(p) ==> files.contains(p)
            },
            Err(_) => true,
        },
{
}

/// A chosen model is taken if and only if it is a file, whatever else there is; where none is
/// chosen, the first candidate wins over the second, and a model that is neither is missing.
pub proof fn chosen_models_win(
    files: Seq<Seq<char>>,
    name: Seq<char>,
    dir: Seq<char>,
    path: Seq<char>,
    first: Seq<char>,
    second: Seq<char>,
)
    requires
        dir.len() > 0,
        dir.last() != '/',
    ensures
        files.contains(path) ==> optional_path(files, name, dir, Some(path), first, second) == Ok::<
            Option<Seq<char>>,
            Seq<char>,
        >(Some(path)),
        !files.contains(path) ==> optional_path(files, name, dir, Some(path), first, second) is Err,
        files.contains(dir + seq!['/'] + first) ==> optional_path(
            files,
            name,
            dir,
            None,
            first,
            second,
        ) == Ok::<Option<Seq<char>>, Seq<char>>(Some(dir + seq!['/'] + first)),
        !files.contains(dir + seq!['/'] + first) && files.contains(dir + seq!['/'] + second)
            ==> optional_path(files, name, dir, None, first, second) == Ok::<
            Option<Seq<char>>,
            Seq<char>,
        >(Some(dir + seq!['/'] + second)),
        !files.contains(dir + seq!['/'] + first) && !files.contains(dir + seq!['/'] + second)
            ==> optional_path(files, name, dir, None, first, second) == Ok::<
            Option<Seq<char>>,
            Seq<char>,
        >(None),
{
    reveal_strlit("/");
    assert("/"@ =~= seq!['/']);
}

/// A required model is missing where it is neither chosen nor at its place, and is never taken
/// from anywhere else.
pub proof fn required_models_are_files(
    files: Seq<Seq<char>>,
    name: Seq<char>,
    dir: Seq<char>,
    chosen: Option<Seq<char>>,
    candidate: Seq<char>,
    flag: Seq<char>,
)
    ensures
        required_path(files, name, dir, chosen, candidate, flag) is Ok <==> match chosen {
            Some(path) => files.contains(path),
            None => files.contains(below(dir, candidate)),
        },
        required_path(files, name, dir, chosen, candidate, flag) matches Ok(found)
            ==> files.contains(found) && (chosen == Some(found) || found == below(dir, candidate)),
{
}

} // verus!
