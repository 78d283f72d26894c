use crate::codec::{encode_testcases, parse_testcases, spec_encode, spec_parse};
use crate::testcase::TestcaseFile;
use vstd::prelude::*;

verus! {

/// The cache file name for a task identifier, under the testcase directory.
pub fn testcase_file_name(contest_task_name: &str) -> (r: String)
    ensures
        r@ == contest_task_name@ + ".toml"@,
{
    contest_task_name.to_owned().concat(".toml")
}

/// Splits the flat fetched text list into its parallel input and output
/// sequences: texts alternate, inputs at the even positions.
pub fn split_alternating(items: &Vec<String>) -> (r: (Vec<String>, Vec<String>))
    ensures
        r.0@.len() == (items@.len() + 1) / 2,
        r.1@.len() == items@.len() / 2,
        forall|k: int| 0 <= k < r.0@.len() ==> r.0@[k]@ == items@[2 * k]@,
        forall|k: int| 0 <= k < r.1@.len() ==> r.1@[k]@ == items@[2 * k + 1]@,
{
    let mut inputs: Vec<String> = Vec::new();
    let mut outputs: Vec<String> = Vec::new();
    let mut i: usize = 0;
    while i < items.len()
        invariant
            i <= items@.len(),
            inputs@.len() == (i + 1) / 2,
            outputs@.len() == i / 2,
            forall|k: int| 0 <= k < inputs@.len() ==> inputs@[k]@ == items@[2 * k]@,
            forall|k: int| 0 <= k < outputs@.len() ==> outputs@[k]@ == items@[2 * k + 1]@,
        decreases items@.len() - i,
    {
        if i % 2 == 0 {
            inputs.push(items[i].clone());
        } else {
            outputs.push(items[i].clone());
        }
        i = i + 1;
    }
    (inputs, outputs)
}

/// Validation of a fetched text list: usable exactly when it pairs up into a
/// non-empty collection with as many inputs as outputs. A mismatched or empty
/// fetch yields `None` and never a partially usable collection.
pub fn accept_fetched(items: &Vec<String>) -> (r: Option<(Vec<String>, Vec<String>)>)
    ensures
        r is Some <==> (items@.len() > 0 && items@.len() % 2 == 0),
        match r {
            Some(pair) => {
                &&& pair.0@.len() == pair.1@.len()
                &&& pair.0@.len() > 0
                &&& pair.0@.len() == items@.len() / 2
                &&& forall|k: int| 0 <= k < pair.0@.len() ==> pair.0@[k]@ == items@[2 * k]@
                &&& forall|k: int| 0 <= k < pair.1@.len() ==> pair.1@[k]@ == items@[2 * k + 1]@
            },
            None => true,
        },
{
    let (inputs, outputs) = split_alternating(items);
    if inputs.len() == outputs.len() && inputs.len() > 0 {
        Some((inputs, outputs))
    } else {
        None
    }
}

/// The cache-hit path: deserializes a cached document into the two parallel
/// text sequences. `None` exactly on a malformed document, which the caller
/// must treat as fatal.
pub fn load_testcases(content: &str) -> (r: Option<(Vec<String>, Vec<String>)>)
    ensures
        r is Some <==> spec_parse(content@) is Some,
        match r {
            Some(pair) => {
                let tcs = spec_parse(content@)->Some_0;
                &&& pair.0@.len() == tcs.len()
                &&& pair.1@.len() == tcs.len()
                &&& forall|k: int| 0 <= k < tcs.len() ==> pair.0@[k]@ == tcs[k].0
                &&& forall|k: int| 0 <= k < tcs.len() ==> pair.1@[k]@ == tcs[k].1
            },
            None => true,
        },
{
    match parse_testcases(content) {
        None => None,
        Some(file) => {
            let inputs = file.inputs();
            let outputs = file.outputs();
            Some((inputs, outputs))
        },
    }
}

/// The sole write path: serializes the freshly fetched collection wholesale,
/// so later runs for the same task identifier are cache hits.
pub fn save_testcases(inputs: &Vec<String>, outputs: &Vec<String>) -> (r: String)
    requires
        inputs@.len() == outputs@.len(),
    ensures
        r@ == spec_encode(
            Seq::new(inputs@.len(), |k: int| (inputs@[k]@, outputs@[k]@)),
        ),
{
    let file = TestcaseFile::from_pairs(inputs, outputs);
    proof {
        assert(file.rep() =~= Seq::new(inputs@.len(), |k: int| (inputs@[k]@, outputs@[k]@)));
    }
    encode_testcases(&file)
}

} // verus!
