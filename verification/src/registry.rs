//! Scoped read-only access to the hierarchical configuration store.
//!
//! The store is modeled as the values it holds: nodes addressed by a
//! wide-character path, each carrying named fields of raw bytes.  A query
//! behaves as the native one does: it answers with the value when the
//! caller's buffer is large enough, reports the needed size when it is
//! not, and fails with a terminal code for a missing or unreadable field.
//! The verified reads drive that protocol with a growable buffer —
//! grow-and-retry on "more data", stop on anything else — under an
//! explicit retry bound.
use vstd::prelude::*;

use crate::utf16::{utf16_decode, strip_trailing_zeros, words_of_bytes, bytes_to_words,
    strip_zero_terminators, decode_utf16};

verus! {

/// The queried field does not exist.
pub const REG_FILE_NOT_FOUND: u32 = 2;

/// The queried field may not be read.
pub const REG_ACCESS_DENIED: u32 = 5;

/// The default buffer size a read starts with.
pub const DEFAULT_BUF_LEN: usize = 2048;

/// The most queries one read will issue before giving up, so that a
/// misbehaving store cannot drive unbounded growth.
pub const MAX_READ_ATTEMPTS: u32 = 8;

/// One named value of a configuration node.
pub struct RegField {
    pub name: Vec<u16>,
    /// Whether a query for this field is permitted.
    pub readable: bool,
    pub data: Vec<u8>,
}

/// One node of the configuration store.
pub struct RegNode {
    pub path: Vec<u16>,
    /// Whether opening this node is permitted.
    pub accessible: bool,
    pub fields: Vec<RegField>,
}

/// The first node with the given path, if any.
pub open spec fn find_node(nodes: Seq<RegNode>, path: Seq<u16>) -> Option<RegNode>
    decreases nodes.len(),
{
    if nodes.len() == 0 {
        None
    } else if nodes[0].path@ == path {
        Some(nodes[0])
    } else {
        find_node(nodes.skip(1), path)
    }
}

/// The first field with the given name, if any.
pub open spec fn find_field(fields: Seq<RegField>, name: Seq<u16>) -> Option<RegField>
    decreases fields.len(),
{
    if fields.len() == 0 {
        None
    } else if fields[0].name@ == name {
        Some(fields[0])
    } else {
        find_field(fields.skip(1), name)
    }
}

/// What one query answers: the value, a grow request, or a terminal
/// failure code.
pub enum QueryAnswer {
    Success(Vec<u8>),
    MoreData(usize),
    Failed(u32),
}

fn words_eq(a: &Vec<u16>, b: &Vec<u16>) -> (r: bool)
    ensures
        r == (a@ == b@),
{
    if a.len() != b.len() {
        return false;
    }
    let n = a.len();
    let mut i: usize = 0;
    while i < n
        invariant
            0 <= i <= n,
            n == a@.len() && n == b@.len(),
            forall|j: int| 0 <= j < i ==> a@[j] == b@[j],
        decreases n - i,
    {
        if a[i] != b[i] {
            return false;
        }
        i = i + 1;
    }
    proof {
        assert(a@ =~= b@);
    }
    true
}

fn copy_bytes(v: &Vec<u8>) -> (r: Vec<u8>)
    ensures
        r@ == v@,
{
    let mut out: Vec<u8> = Vec::new();
    let n = v.len();
    let mut i: usize = 0;
    while i < n
        invariant
            0 <= i <= n,
            n == v@.len(),
            out@ == v@.take(i as int),
        decreases n - i,
    {
        out.push(v[i]);
        proof {
            assert(out@ =~= v@.take(i as int + 1));
        }
        i = i + 1;
    }
    proof {
        assert(v@.take(n as int) =~= v@);
    }
    out
}

/// An open handle onto one configuration node: read-only, closed exactly
/// once.
pub struct RegKey<'a> {
    fields: &'a Vec<RegField>,
    open: bool,
}

impl<'a> RegKey<'a> {
    /// The fields of the node this handle is open onto.
    pub closed spec fn fields_spec(&self) -> Seq<RegField> {
        self.fields@
    }

    /// Whether the handle has not been closed yet.
    pub closed spec fn is_open(&self) -> bool {
        self.open
    }

    /// Opens a handle onto the node with the given path.  Returns None
    /// when no such node exists or it may not be opened; the two causes
    /// are deliberately not distinguished.
    pub fn open(store: &'a Vec<RegNode>, path: &Vec<u16>) -> (r: Option<RegKey<'a>>)
        ensures
            r is Some <==> (match find_node(store@, path@) {
                Some(n) => n.accessible,
                None => false,
            }),
            r matches Some(k) ==> k.is_open() && (match find_node(store@, path@) {
                Some(n) => k.fields_spec() == n.fields@,
                None => false,
            }),
    {
        let n = store.len();
        let mut i: usize = 0;
        proof {
            assert(store@.skip(0) =~= store@);
        }
        while i < n
            invariant
                0 <= i <= n,
                n == store@.len(),
                find_node(store@, path@) == find_node(store@.skip(i as int), path@),
            decreases n - i,
        {
            let ghost rest = store@.skip(i as int);
            proof {
                assert(rest[0] == store@[i as int]);
                assert(rest.skip(1) =~= store@.skip(i as int + 1));
            }
            let node = &store[i];
            if words_eq(&node.path, path) {
                if node.accessible {
                    return Some(RegKey { fields: &node.fields, open: true });
                } else {
                    return None;
                }
            }
            i = i + 1;
        }
        proof {
            assert(store@.skip(n as int) =~= Seq::<RegNode>::empty());
        }
        None
    }

    /// One query against the node, as the native call answers it for a
    /// buffer of `buf_len` bytes: the value when it fits, the needed size
    /// when it does not, and a terminal code for a missing or unreadable
    /// field.
    pub fn get_value(&self, field_name: &Vec<u16>, buf_len: usize) -> (r: QueryAnswer)
        requires
            self.is_open(),
        ensures
            (match find_field(self.fields_spec(), field_name@) {
                None => r matches QueryAnswer::Failed(c) && c == REG_FILE_NOT_FOUND,
                Some(f) => if !f.readable {
                    r matches QueryAnswer::Failed(c) && c == REG_ACCESS_DENIED
                } else if f.data@.len() > buf_len {
                    r matches QueryAnswer::MoreData(need) && need == f.data@.len()
                } else {
                    r matches QueryAnswer::Success(d) && d@ == f.data@
                }
            }),
    {
        let n = self.fields.len();
        let mut i: usize = 0;
        proof {
            assert(self.fields@.skip(0) =~= self.fields@);
        }
        while i < n
            invariant
                0 <= i <= n,
                n == self.fields@.len(),
                find_field(self.fields_spec(), field_name@)
                    == find_field(self.fields@.skip(i as int), field_name@),
            decreases n - i,
        {
            let ghost rest = self.fields@.skip(i as int);
            proof {
                assert(rest[0] == self.fields@[i as int]);
                assert(rest.skip(1) =~= self.fields@.skip(i as int + 1));
            }
            let f = &self.fields[i];
            if words_eq(&f.name, field_name) {
                if !f.readable {
                    return QueryAnswer::Failed(REG_ACCESS_DENIED);
                }
                if f.data.len() > buf_len {
                    return QueryAnswer::MoreData(f.data.len());
                }
                return QueryAnswer::Success(copy_bytes(&f.data));
            }
            i = i + 1;
        }
        proof {
            assert(self.fields@.skip(n as int) =~= Seq::<RegField>::empty());
        }
        QueryAnswer::Failed(REG_FILE_NOT_FOUND)
    }

    /// Reads one value whole with a growable buffer: on "more data" the
    /// buffer grows to the reported size and the query is retried, under
    /// an explicit bound on attempts; any other failure ends the read
    /// with None.  Also reports how many queries were issued, so that the
    /// retry behaviour is observable.
    pub fn read_raw(&self, field_name: &Vec<u16>, initial_len: usize) -> (r: (Option<Vec<u8>>, u32))
        requires
            self.is_open(),
        ensures
            (match find_field(self.fields_spec(), field_name@) {
                Some(f) => {
                    &&& (f.readable ==> (r.0 matches Some(d) && d@ == f.data@))
                    &&& (!f.readable ==> r.0 is None)
                    &&& r.1 == (if f.readable && f.data@.len() > initial_len { 2int } else { 1int })
                },
                None => r.0 is None && r.1 == 1,
            }),
    {
        let mut buf_len = initial_len;
        let mut attempts: u32 = 0;
        while attempts < MAX_READ_ATTEMPTS
            invariant
                self.is_open(),
                (match find_field(self.fields_spec(), field_name@) {
                    Some(f) => {
                        &&& (attempts == 0 ==> buf_len == initial_len)
                        &&& (attempts == 1 ==> f.readable && f.data@.len() > initial_len
                            && buf_len == f.data@.len())
                        &&& attempts <= 1
                    },
                    None => attempts == 0,
                }),
            decreases MAX_READ_ATTEMPTS - attempts,
        {
            match self.get_value(field_name, buf_len) {
                QueryAnswer::Success(d) => {
                    return (Some(d), attempts + 1);
                },
                QueryAnswer::MoreData(need) => {
                    buf_len = need;
                    attempts = attempts + 1;
                },
                QueryAnswer::Failed(_code) => {
                    return (None, attempts + 1);
                },
            }
        }
        proof {
            assert(false);
        }
        vstd::pervasive::unreached()
    }

    /// Closes the handle.  Closing happens exactly once — a second close
    /// is excluded by the precondition — and any failure of the native
    /// close is deliberately ignored, since the caller could not recover
    /// from it.
    pub fn close(&mut self)
        requires
            old(self).is_open(),
        ensures
            !final(self).is_open(),
            final(self).fields_spec() == old(self).fields_spec(),
    {
        self.open = false;
    }
}

/// What a read should do after one query: retry with a buffer of the
/// given size, or finish with the given outcome.
pub enum ReadStep {
    Retry(usize),
    Done(Option<Vec<u8>>),
}

/// The decision the grow-and-retry protocol takes on one query answer:
/// a value ends the read with it, a grow request retries with exactly
/// the reported size, and any failure ends the read empty-handed.
pub fn read_step(answer: QueryAnswer) -> (r: ReadStep)
    ensures
        (match answer {
            QueryAnswer::Success(d) => r matches ReadStep::Done(o) && (o matches Some(v) && v@
                == d@),
            QueryAnswer::MoreData(need) => r matches ReadStep::Retry(n) && n == need,
            QueryAnswer::Failed(_) => r matches ReadStep::Done(o) && o is None,
        }),
{
    match answer {
        QueryAnswer::Success(d) => ReadStep::Done(Some(d)),
        QueryAnswer::MoreData(need) => ReadStep::Retry(need),
        QueryAnswer::Failed(_code) => ReadStep::Done(None),
    }
}

/// The text a string-valued field decodes to: its bytes reassembled as
/// wide characters, trailing zero terminators stripped, decoded with
/// replacement of ill-formed sequences.
pub open spec fn reg_string_of(data: Seq<u8>) -> Seq<char> {
    utf16_decode(strip_trailing_zeros(words_of_bytes(data)))
}

/// Reads a string value: opens the node, reads the field whole with the
/// growable protocol, and decodes it.  None when the node cannot be
/// opened, the field is missing, or it may not be read — the causes are
/// not distinguished.
pub fn get_reg_string_value(store: &Vec<RegNode>, path: &Vec<u16>, field_name: &Vec<u16>) -> (r:
    Option<String>)
    ensures
        (match find_node(store@, path@) {
            Some(node) => if node.accessible {
                match find_field(node.fields@, field_name@) {
                    Some(f) => if f.readable {
                        r matches Some(s) && s@ == reg_string_of(f.data@)
                    } else {
                        r is None
                    },
                    None => r is None,
                }
            } else {
                r is None
            },
            None => r is None,
        }),
{
    let mut key = match RegKey::open(store, path) {
        Some(k) => k,
        None => {
            return None;
        },
    };
    let (read, _attempts) = key.read_raw(field_name, DEFAULT_BUF_LEN);
    key.close();
    match read {
        Some(data) => {
            let mut words = bytes_to_words(data.as_slice());
            strip_zero_terminators(&mut words);
            let (s, _well_formed) = decode_utf16(words.as_slice());
            Some(s)
        },
        None => None,
    }
}

/// Reads a fixed-size 32-bit value as its four raw bytes, with the same
/// growable protocol.  None when the node or field is unavailable or the
/// value is not exactly four bytes.
pub fn get_reg_value_u32(store: &Vec<RegNode>, path: &Vec<u16>, field_name: &Vec<u16>) -> (r:
    Option<Vec<u8>>)
    ensures
        (match find_node(store@, path@) {
            Some(node) => if node.accessible {
                match find_field(node.fields@, field_name@) {
                    Some(f) => if f.readable && f.data@.len() == 4 {
                        r matches Some(d) && d@ == f.data@
                    } else {
                        r is None
                    },
                    None => r is None,
                }
            } else {
                r is None
            },
            None => r is None,
        }),
{
    let mut key = match RegKey::open(store, path) {
        Some(k) => k,
        None => {
            return None;
        },
    };
    let (read, _attempts) = key.read_raw(field_name, 4);
    key.close();
    match read {
        Some(data) => {
            if data.len() == 4 {
                Some(data)
            } else {
                None
            }
        },
        None => None,
    }
}

} // verus!
