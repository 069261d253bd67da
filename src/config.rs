use vstd::prelude::*;
use vstd::string::StringSliceAdditionalSpecFns;

use crate::error::Rejection;

verus! {

#[verifier::external_type_specification]
#[verifier::external_body]
pub struct ExTomlError(toml::de::Error);

/// Most bytes that open a nesting level (`[`, `{` or `.`) that a configuration
/// may hold. The decoder recurses once per level, so this keeps its stack use
/// bounded; a real configuration has a handful of them.
pub const MAX_NESTING_MARKS: usize = 256;

/// Whether a byte can open a nesting level in the decoder: an array or table
/// bracket, an inline table brace, or a dot of a dotted key.
pub open spec fn is_nesting_mark(b: u8) -> bool {
    b == 91u8 || b == 123u8 || b == 46u8
}

/// How many bytes of `bytes` can open a nesting level.
pub open spec fn nesting_marks(bytes: Seq<u8>) -> nat
    decreases bytes.len(),
{
    if bytes.len() == 0 {
        0
    } else {
        nesting_marks(bytes.drop_last()) + if is_nesting_mark(bytes.last()) {
            1nat
        } else {
            0nat
        }
    }
}

/// Counts the bytes of `text` that can open a nesting level.
pub fn count_nesting_marks(text: &str) -> (r: usize)
    ensures
        r == nesting_marks(text.spec_bytes()),
{
    let bytes = text.as_bytes();
    let mut count: usize = 0;
    let mut i: usize = 0;
    while i < bytes.len()
        invariant
            bytes@ == text.spec_bytes(),
            i <= bytes@.len(),
            count <= i,
            count == nesting_marks(bytes@.subrange(0, i as int)),
        decreases bytes.len() - i,
    {
        assert(bytes@.subrange(0, i as int + 1).drop_last() =~= bytes@.subrange(0, i as int));
        let b = bytes[i];
        if b == 91u8 || b == 123u8 || b == 46u8 {
            count = count + 1;
        }
        i = i + 1;
    }
    assert(bytes@.subrange(0, bytes@.len() as int) =~= bytes@);
    count
}

/// What decoding a workload configuration yields: for each declared file, in
/// order, its port if it is a listen socket; `None` when the text does not decode.
pub uninterp spec fn decoded_listen_slots(text: Seq<char>) -> Option<Seq<Option<u16>>>;

/// Relies on toml::from_str decoding the text as an enarx_config::Config, whose
/// declared files it reports one for one: a listen socket as its port. The
/// decoder recurses without a depth limit on arrays, inline tables and dotted
/// keys, so the text it is given has a bounded number of nesting marks.
#[verifier::external_body]
fn decode_listen_slots(text: &str) -> (r: Result<Vec<Option<u16>>, toml::de::Error>)
    requires
        nesting_marks(text.spec_bytes()) <= MAX_NESTING_MARKS,
    ensures
        match r {
            Ok(slots) => decoded_listen_slots(text@) == Some(slots@),
            Err(_) => decoded_listen_slots(text@) is None,
        },
{
    let config: enarx_config::Config = toml::from_str(text)?;
    Ok(config.files.into_iter().map(|file| match file {
        enarx_config::File::Listen { port, .. } => Some(port),
        _ => None,
    }).collect())
}

/// The ports of the listen sockets among `slots`, in order.
pub open spec fn listen_ports_of(slots: Seq<Option<u16>>) -> Seq<u16>
    decreases slots.len(),
{
    if slots.len() == 0 {
        Seq::empty()
    } else {
        let rest = listen_ports_of(slots.drop_last());
        match slots.last() {
            Some(p) => rest.push(p),
            None => rest,
        }
    }
}

/// Keeps the ports of the listen sockets among the decoded files, in order.
pub fn collect_listen_ports(slots: &Vec<Option<u16>>) -> (r: Vec<u16>)
    ensures
        r@ == listen_ports_of(slots@),
{
    let mut out: Vec<u16> = Vec::new();
    let mut i: usize = 0;
    while i < slots.len()
        invariant
            i <= slots@.len(),
            out@ == listen_ports_of(slots@.subrange(0, i as int)),
        decreases slots.len() - i,
    {
        assert(slots@.subrange(0, i as int + 1).drop_last() =~= slots@.subrange(0, i as int));
        match slots[i] {
            Some(p) => out.push(p),
            None => {},
        }
        i = i + 1;
    }
    assert(slots@.subrange(0, slots@.len() as int) =~= slots@);
    out
}

/// The listen ports that a workload configuration declares, or
/// `MalformedConfig` when it nests deeper than `MAX_NESTING_MARKS` allows or
/// does not decode.
pub fn parse_ports(text: &str) -> (r: Result<Vec<u16>, Rejection>)
    ensures
        nesting_marks(text.spec_bytes()) > MAX_NESTING_MARKS ==> r == Err::<Vec<u16>, Rejection>(
            Rejection::MalformedConfig,
        ),
        nesting_marks(text.spec_bytes()) <= MAX_NESTING_MARKS ==> match decoded_listen_slots(text@) {
            Some(slots) => r matches Ok(ports) && ports@ == listen_ports_of(slots),
            None => r == Err::<Vec<u16>, Rejection>(Rejection::MalformedConfig),
        },
{
    if count_nesting_marks(text) > MAX_NESTING_MARKS {
        return Err(Rejection::MalformedConfig);
    }
    match decode_listen_slots(text) {
        Ok(slots) => Ok(collect_listen_ports(&slots)),
        Err(_) => Err(Rejection::MalformedConfig),
    }
}

} // verus!
