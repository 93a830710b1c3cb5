use vstd::prelude::*;
use vstd::utf8::{decode_utf8, valid_utf8};
use crate::error::{bad_request, ErrorKind, ServerError};
use crate::flight::Sequence;

verus! {

/// A stored sequence with the configuration it was written for.
#[derive(Clone, Debug)]
pub struct SequenceWithConfiguration {
    pub name: String,
    pub script: String,
    pub configuration_id: Option<String>,
}

/// Every stored sequence.
#[derive(Clone, Debug)]
pub struct RetrieveSequenceResponse {
    pub sequences: Vec<SequenceWithConfiguration>,
}

/// A request to store a sequence; the script is Base64-encoded.
#[derive(Clone, Debug)]
pub struct SaveSequenceRequest {
    pub name: String,
    pub configuration_id: Option<String>,
    pub script: String,
}

/// A request to delete the sequence of the given name.
#[derive(Clone, Debug)]
pub struct DeleteSequenceRequest {
    pub name: String,
}

/// A request to send the stored sequence of the given name to the flight
/// computer. `force` is advisory.
#[derive(Clone, Debug)]
pub struct RunSequenceRequest {
    pub name: String,
    pub force: Option<bool>,
}

/// The bytes that a text encodes in the standard Base64 alphabet, or `None`
/// when it is not valid Base64.
pub uninterp spec fn base64_decoded(text: Seq<char>) -> Option<Seq<u8>>;

/// Relies on `base64::decode` (the standard alphabet): it
/// returns the bytes that the text encodes, or an error when it is not valid
/// Base64, depending on the text alone.
#[verifier::external_body]
fn decode_base64(text: &str) -> (r: Option<Vec<u8>>)
    ensures
        r is Some <==> base64_decoded(text@) is Some,
        r matches Some(b) ==> base64_decoded(text@) == Some(b@),
{
    base64::decode(text).ok()
}

/// Relies on `String::from_utf8`: it accepts exactly the byte strings that are
/// valid UTF-8, and the string holds the characters they encode.
#[verifier::external_body]
fn utf8_string(bytes: Vec<u8>) -> (r: Option<String>)
    ensures
        r is Some <==> valid_utf8(bytes@),
        r matches Some(s) ==> s@ == decode_utf8(bytes@),
{
    String::from_utf8(bytes).ok()
}

/// The script text that decoded bytes hold: `BadRequest` when decoding failed
/// or the bytes are not UTF-8.
pub fn script_from_decoded(decoded: Option<Vec<u8>>) -> (r: Result<String, ServerError>)
    ensures
        r is Ok <==> (decoded matches Some(b) && valid_utf8(b@)),
        r matches Ok(s) ==> (decoded matches Some(b) && s@ == decode_utf8(b@)),
        r matches Err(e) ==> e.kind == ErrorKind::BadRequest,
{
    match decoded {
        Some(bytes) => match utf8_string(bytes) {
            Some(s) => Ok(s),
            None => Err(bad_request("script is not valid UTF-8")),
        },
        None => Err(bad_request("script is not valid Base64")),
    }
}

/// Decodes a Base64-encoded script into its text: `BadRequest` when it is not
/// Base64 or the bytes are not UTF-8.
pub fn decode_script(encoded: &String) -> (r: Result<String, ServerError>)
    ensures
        r is Ok <==> (base64_decoded(encoded@) matches Some(b) && valid_utf8(b)),
        r matches Ok(s) ==> (base64_decoded(encoded@) matches Some(b) && s@ == decode_utf8(b)),
        r matches Err(e) ==> e.kind == ErrorKind::BadRequest,
{
    script_from_decoded(decode_base64(encoded.as_str()))
}

/// The position of the sequence with the given name.
pub open spec fn find_sequence(s: Seq<SequenceWithConfiguration>, name: Seq<char>) -> Option<int> {
    if exists|i: int| 0 <= i < s.len() && (#[trigger] s[i]).name@ == name {
        Some(choose|i: int| 0 <= i < s.len() && (#[trigger] s[i]).name@ == name)
    } else {
        None
    }
}

/// No two stored sequences share a name.
pub open spec fn names_unique(s: Seq<SequenceWithConfiguration>) -> bool {
    forall|i: int, j: int| 0 <= i < j < s.len() ==> (#[trigger] s[i]).name@ != (#[trigger] s[j]).name@
}

/// The stored sequences, keyed by name.
pub struct SequenceTable {
    entries: Vec<SequenceWithConfiguration>,
}

/// The position of the entry with the given name.
fn sequence_index(entries: &Vec<SequenceWithConfiguration>, name: &String) -> (r: Option<usize>)
    ensures
        r matches Some(i) ==> i < entries@.len() && entries@[i as int].name@ == name@,
        r is None ==> forall|k: int| 0 <= k < entries@.len() ==> (#[trigger] entries@[k]).name@ != name@,
{
    let mut i: usize = 0;
    while i < entries.len()
        invariant
            i <= entries@.len(),
            forall|k: int| 0 <= k < i ==> (#[trigger] entries@[k]).name@ != name@,
        decreases entries@.len() - i,
    {
        if entries[i].name.eq(name) {
            return Some(i);
        }
        i = i + 1;
    }
    None
}

impl SequenceTable {
    /// The stored sequences, in order.
    pub closed spec fn entries(&self) -> Seq<SequenceWithConfiguration> {
        self.entries@
    }

    /// No two stored sequences share a name.
    pub open spec fn wf(&self) -> bool {
        names_unique(self.entries())
    }

    /// A table with no sequences.
    pub fn new() -> (r: SequenceTable)
        ensures
            r.wf(),
            r.entries().len() == 0,
    {
        SequenceTable { entries: Vec::new() }
    }

    /// Stores a sequence under its name, replacing one of the same name in place.
    pub fn store(&mut self, sequence: SequenceWithConfiguration)
        requires
            old(self).wf(),
        ensures
            final(self).wf(),
            find_sequence(old(self).entries(), sequence.name@) matches Some(i) ==> final(self).entries()
                == old(self).entries().update(i, sequence),
            find_sequence(old(self).entries(), sequence.name@) is None ==> final(self).entries()
                == old(self).entries().push(sequence),
    {
        let ghost before = self.entries@;
        match sequence_index(&self.entries, &sequence.name) {
            Some(i) => {
                proof {
                    let j = choose|j: int| 0 <= j < before.len() && (#[trigger] before[j]).name@ == sequence.name@;
                    if j != i {
                        if j < i {
                            assert(before[j].name@ != before[i as int].name@);
                        } else {
                            assert(before[i as int].name@ != before[j].name@);
                        }
                    }
                }
                self.entries.set(i, sequence);
                proof {
                    assert forall|a: int, b: int| 0 <= a < b < self.entries@.len() implies (#[trigger] self.entries@[a]).name@
                        != (#[trigger] self.entries@[b]).name@ by {
                        if a != i && b != i {
                            assert(self.entries@[a] == before[a] && self.entries@[b] == before[b]);
                        }
                    }
                }
            },
            None => {
                self.entries.push(sequence);
                proof {
                    assert forall|a: int, b: int| 0 <= a < b < self.entries@.len() implies (#[trigger] self.entries@[a]).name@
                        != (#[trigger] self.entries@[b]).name@ by {
                        assert(self.entries@[a] == before[a]);
                        if b < before.len() {
                            assert(self.entries@[b] == before[b]);
                        }
                    }
                }
            },
        }
    }

    /// Removes the sequence of the given name, if there is one.
    pub fn remove(&mut self, name: &String)
        requires
            old(self).wf(),
        ensures
            final(self).wf(),
            find_sequence(old(self).entries(), name@) matches Some(i) ==> final(self).entries()
                == old(self).entries().remove(i),
            find_sequence(old(self).entries(), name@) is None ==> final(self).entries() == old(self).entries(),
    {
        let ghost before = self.entries@;
        match sequence_index(&self.entries, name) {
            Some(i) => {
                proof {
                    let j = choose|j: int| 0 <= j < before.len() && (#[trigger] before[j]).name@ == name@;
                    if j != i {
                        if j < i {
                            assert(before[j].name@ != before[i as int].name@);
                        } else {
                            assert(before[i as int].name@ != before[j].name@);
                        }
                    }
                }
                self.entries.remove(i);
                proof {
                    assert forall|a: int, b: int| 0 <= a < b < self.entries@.len() implies (#[trigger] self.entries@[a]).name@
                        != (#[trigger] self.entries@[b]).name@ by {
                        let a0 = if a < i { a } else { a + 1 };
                        let b0 = if b < i { b } else { b + 1 };
                        assert(self.entries@[a] == before[a0] && self.entries@[b] == before[b0]);
                    }
                }
            },
            None => {},
        }
    }

    /// The stored sequence of the given name, as the flight computer receives it.
    pub fn lookup(&self, name: &String) -> (r: Option<Sequence>)
        requires
            self.wf(),
        ensures
            find_sequence(self.entries(), name@) matches Some(i) ==> (r matches Some(s) && s.name@ == name@
                && s.script@ == self.entries()[i].script@),
            find_sequence(self.entries(), name@) is None ==> r is None,
    {
        match sequence_index(&self.entries, name) {
            Some(i) => {
                proof {
                    let j = choose|j: int| 0 <= j < self.entries@.len() && (#[trigger] self.entries@[j]).name@ == name@;
                    if j != i {
                        if j < i {
                            assert(self.entries@[j].name@ != self.entries@[i as int].name@);
                        } else {
                            assert(self.entries@[i as int].name@ != self.entries@[j].name@);
                        }
                    }
                }
                Some(Sequence { name: name.clone(), script: self.entries[i].script.clone() })
            },
            None => None,
        }
    }

    /// Every stored sequence.
    pub fn list(&self) -> (r: RetrieveSequenceResponse)
        ensures
            r.sequences@ == self.entries(),
    {
        let mut out: Vec<SequenceWithConfiguration> = Vec::new();
        let mut i: usize = 0;
        while i < self.entries.len()
            invariant
                i <= self.entries@.len(),
                out@ == self.entries@.take(i as int),
            decreases self.entries@.len() - i,
        {
            let e = &self.entries[i];
            out.push(SequenceWithConfiguration {
                name: e.name.clone(),
                script: e.script.clone(),
                configuration_id: match &e.configuration_id {
                    Some(c) => Some(c.clone()),
                    None => None,
                },
            });
            proof {
                assert(out@ =~= self.entries@.take(i + 1));
            }
            i = i + 1;
        }
        proof {
            assert(self.entries@.take(i as int) =~= self.entries@);
        }
        RetrieveSequenceResponse { sequences: out }
    }
}

} // verus!
