//! Tensor files: which tensors their bytes hold, and what is told of them.

use crate::convert::{decimals, shape_text};
use crate::doctor::{eight_bytes, number_of};
use crate::strings::{chars_of, decimal, decimal_string, join, views};
use vstd::prelude::*;
use vstd::slice::slice_subrange;

verus! {

/// Where the data ends that the header of a safetensors file lays out, as `serde_json` reads the
/// header into a `Metadata`, counted from the end of the header; nothing where it is refused.
pub uninterp spec fn data_end(header: Seq<u8>) -> Option<usize>;

/// `serde_json::from_slice` reads the header of a safetensors file into a `Metadata`, which checks
/// its offsets, and `Metadata::data_len` gives the end of the last tensor.
#[verifier::external_body]
fn read_data_end(header: &[u8]) -> (r: Option<usize>)
    ensures
        r == data_end(header@),
{
    match serde_json::from_slice::<safetensors::tensor::Metadata>(header) {
        Ok(metadata) => Some(metadata.data_len()),
        Err(_) => None,
    }
}

/// Whether a header that stands in the bytes of a safetensors file, behind the eight bytes of its
/// length, lays out no more data than there are bytes.
pub open spec fn data_fits(bytes: Seq<u8>) -> bool {
    let len = number_of(bytes.take(8));
    bytes.len() >= 8 && 8 + len <= bytes.len() ==> match data_end(
        bytes.subrange(8, 8 + len as int),
    ) {
        Some(end) => end <= bytes.len(),
        None => true,
    }
}

/// Whether the header of a safetensors file lays out no more data than there are bytes.
pub fn has_its_data(bytes: &Vec<u8>) -> (r: bool)
    ensures
        r == data_fits(bytes@),
{
    if bytes.len() < 8 {
        return true;
    }
    let len: u64 = eight_bytes(slice_subrange(bytes.as_slice(), 0, 8));
    assert(bytes@.subrange(0, 8) =~= bytes@.take(8));
    if len > (bytes.len() - 8) as u64 {
        return true;
    }
    match read_data_end(slice_subrange(bytes.as_slice(), 8, 8 + len as usize)) {
        Some(end) => end <= bytes.len(),
        None => true,
    }
}

/// What is said of a file whose header lays out more data than there are bytes.
pub open spec fn uncovered() -> Seq<char> {
    "incomplete metadata, file not fully covered"@
}

/// The tensors of the bytes of a safetensors file, by name with their shapes, as
/// `SafeTensors::deserialize` reads them; nothing where it refuses the bytes.
pub uninterp spec fn tensors_in(bytes: Seq<u8>) -> Option<Map<Seq<char>, Seq<usize>>>;

/// The names of listed tensors.
pub open spec fn names_listed(list: Seq<(String, Vec<usize>)>) -> Seq<Seq<char>> {
    list.map_values(|t: (String, Vec<usize>)| t.0@)
}

/// Whether names are all the names of some tensors, each once.
pub open spec fn is_order(names: Seq<Seq<char>>, tensors: Map<Seq<char>, Seq<usize>>) -> bool {
    &&& names.no_duplicates()
    &&& names.to_set() == tensors.dom()
}

/// `SafeTensors::deserialize` reads the bytes of a safetensors file, and `SafeTensors::tensors`
/// lists its tensors: each name once, with its shape. The names come out of a hash map, so their
/// order is left unsaid, and so are the words of a refusal. The reader adds the end of the data
/// to the length of the header unchecked, so the data must not pass the end of the bytes.
#[verifier::external_body]
fn read_tensors(bytes: &Vec<u8>) -> (r: Result<Vec<(String, Vec<usize>)>, String>)
    requires
        data_fits(bytes@),
    ensures
        match r {
            Ok(list) => tensors_in(bytes@) matches Some(tensors) && {
                &&& is_order(names_listed(list@), tensors)
                &&& forall|i: int|
                    0 <= i < list@.len() ==> tensors[(#[trigger] list@[i]).0@] == list@[i].1@
            },
            Err(_) => tensors_in(bytes@) is None,
        },
{
    match safetensors::SafeTensors::deserialize(bytes) {
        Ok(file) => Ok(file.tensors().iter().map(|t| (t.0.clone(), t.1.shape().to_vec())).collect()),
        Err(e) => Err(e.to_string()),
    }
}

/// How many tensors the bytes of a safetensors file hold.
pub fn safetensor_count(bytes: &Vec<u8>) -> (r: Result<usize, String>)
    ensures
        match r {
            Ok(n) => {
                &&& data_fits(bytes@)
                &&& tensors_in(bytes@) matches Some(tensors)
                &&& tensors.dom().finite()
                &&& n == tensors.dom().len()
            },
            Err(e) => if data_fits(bytes@) {
                tensors_in(bytes@) is None
            } else {
                e@ == uncovered()
            },
        },
{
    if !has_its_data(bytes) {
        return Err("incomplete metadata, file not fully covered".to_owned());
    }
    match read_tensors(bytes) {
        Ok(list) => {
            proof {
                let names = names_listed(list@);
                names.unique_seq_to_set();
                vstd::seq_lib::seq_to_set_is_finite(names);
            }
            Ok(list.len())
        },
        Err(e) => Err(e),
    }
}

/// The width of the column of names.
pub const NAME_WIDTH: usize = 60;

/// A text with spaces behind it up to a width.
pub open spec fn padded(s: Seq<char>, width: nat) -> Seq<char> {
    if s.len() >= width {
        s
    } else {
        s + Seq::new((width - s.len()) as nat, |i: int| ' ')
    }
}

/// The first line on what a model file holds.
pub open spec fn title_line(file: Seq<char>, count: nat) -> Seq<char> {
    file + " keys ("@ + decimal(count) + " total):"@
}

/// The line on a tensor of a model file.
pub open spec fn tensor_line(name: Seq<char>, dims: Seq<usize>) -> Seq<char> {
    "  "@ + padded(name, NAME_WIDTH as nat) + " "@ + ("["@ + join(decimals(dims), ", "@) + "]"@)
}

/// The first line on what a model file holds.
pub fn inspect_title(file: &str, count: usize) -> (r: String)
    ensures
        r@ == title_line(file@, count as nat),
{
    let mut r = file.to_owned();
    r.push_str(" keys (");
    r.push_str(decimal_string(count as u64).as_str());
    r.push_str(" total):");
    r
}

/// The line on a tensor of a model file.
pub fn inspect_line(name: &str, dims: &Vec<usize>) -> (r: String)
    ensures
        r@ == tensor_line(name@, dims@),
{
    let mut column = name.to_owned();
    let mut len: usize = chars_of(name).len();
    while len < NAME_WIDTH
        invariant
            len == column@.len(),
            padded(column@, NAME_WIDTH as nat) == padded(name@, NAME_WIDTH as nat),
        decreases NAME_WIDTH - len,
    {
        let ghost before = column@;
        column.push(' ');
        len = len + 1;
        assert(padded(before, NAME_WIDTH as nat) =~= padded(column@, NAME_WIDTH as nat));
    }
    let mut r = "  ".to_owned();
    r.push_str(column.as_str());
    r.push_str(" ");
    r.push_str(shape_text(dims).as_str());
    r
}

/// The lines on listed tensors: the title, and a line for each.
pub open spec fn listed_lines(file: Seq<char>, list: Seq<(String, Vec<usize>)>) -> Seq<Seq<char>> {
    seq![title_line(file, list.len())] + list.map_values(
        |t: (String, Vec<usize>)| tensor_line(t.0@, t.1@),
    )
}

/// The lines on listed tensors.
pub fn lines_on(file: &str, list: &Vec<(String, Vec<usize>)>) -> (r: Vec<String>)
    ensures
        views(r@) == listed_lines(file@, list@),
{
    let mut lines: Vec<String> = Vec::new();
    lines.push(inspect_title(file, list.len()));
    assert(views(lines@) =~= listed_lines(file@, list@).take(1));
    for i in 0..list.len()
        invariant
            views(lines@) == listed_lines(file@, list@).take(i + 1),
    {
        let ghost before = lines@;
        lines.push(inspect_line(list[i].0.as_str(), &list[i].1));
        assert(views(lines@) =~= views(before).push(lines@.last()@));
        assert(listed_lines(file@, list@)[i + 1] == tensor_line(
            list@[i as int].0@,
            list@[i as int].1@,
        ));
        assert(views(lines@) =~= listed_lines(file@, list@).take(i + 2));
    }
    assert(views(lines@) =~= listed_lines(file@, list@));
    lines
}

/// The lines on tensors in an order of their names.
pub open spec fn lines_in_order(
    file: Seq<char>,
    tensors: Map<Seq<char>, Seq<usize>>,
    names: Seq<Seq<char>>,
) -> Seq<Seq<char>> {
    seq![title_line(file, names.len())] + names.map_values(
        |n: Seq<char>| tensor_line(n, tensors[n]),
    )
}

/// Whether lines tell of all tensors of a file, in some order.
pub open spec fn told(
    file: Seq<char>,
    tensors: Map<Seq<char>, Seq<usize>>,
    lines: Seq<Seq<char>>,
) -> bool {
    exists|names: Seq<Seq<char>>| #[trigger]
        is_order(names, tensors) && lines == lines_in_order(file, tensors, names)
}

/// The lines on the bytes of a model file, or why they cannot be read.
pub fn inspect_lines(file: &str, bytes: &Vec<u8>) -> (r: Result<Vec<String>, String>)
    ensures
        match r {
            Ok(lines) => {
                &&& data_fits(bytes@)
                &&& tensors_in(bytes@) matches Some(tensors)
                &&& told(file@, tensors, views(lines@))
            },
            Err(e) => if data_fits(bytes@) {
                tensors_in(bytes@) is None
            } else {
                e@ == uncovered()
            },
        },
{
    if !has_its_data(bytes) {
        return Err("incomplete metadata, file not fully covered".to_owned());
    }
    match read_tensors(bytes) {
        Ok(list) => {
            let lines = lines_on(file, &list);
            proof {
                let tensors = tensors_in(bytes@)->0;
                let names = names_listed(list@);
                assert(views(lines@) =~= lines_in_order(file@, tensors, names));
                assert(is_order(names, tensors));
            }
            Ok(lines)
        },
        Err(e) => Err(e),
    }
}

/// What is told of a file has a line for each tensor behind the title.
pub proof fn every_tensor_is_told(
    file: Seq<char>,
    tensors: Map<Seq<char>, Seq<usize>>,
    lines: Seq<Seq<char>>,
)
    requires
        told(file, tensors, lines),
    ensures
        lines.len() == tensors.dom().len() + 1,
        lines[0] == title_line(file, tensors.dom().len()),
        forall|name: Seq<char>| #[trigger]
            tensors.dom().contains(name) ==> lines.contains(tensor_line(name, tensors[name])),
{
    let names = choose|names: Seq<Seq<char>>| #[trigger]
        is_order(names, tensors) && lines == lines_in_order(file, tensors, names);
    names.unique_seq_to_set();
    assert forall|name: Seq<char>| #[trigger] tensors.dom().contains(name) implies lines.contains(
        tensor_line(name, tensors[name]),
    ) by {
        assert(names.to_set().contains(name));
        let i = choose|i: int| 0 <= i < names.len() && names[i] == name;
        assert(lines[i + 1] == tensor_line(name, tensors[name]));
    }
}

} // verus!
