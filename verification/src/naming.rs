//! Names that a run needs: the destination that all workers write to, and
//! the addresses of the sinks.

use rand::Rng;
use vstd::prelude::*;
use vstd::string::{StrSliceExecFns, StringExecFns};

verus! {

/// How many letters a generated destination name has.
pub const NAME_LENGTH: usize = 5;

/// The letters that generated names are made of.
pub open spec fn alphabet() -> Seq<char> {
    "abcdefghijklmnopqrstuvwxyz"@
}

/// Whether `c` is one of `a` to `z`.
pub open spec fn is_lowercase_letter(c: char) -> bool {
    'a' <= c <= 'z'
}

/// Whether `name` is one that `generate_random_string` can give.
pub open spec fn is_generated_name(name: Seq<char>) -> bool {
    &&& name.len() == NAME_LENGTH
    &&& forall|i: int| 0 <= i < name.len() ==> is_lowercase_letter(#[trigger] name[i])
}

/// The alphabet has 26 letters, all of them lower case.
pub proof fn lemma_alphabet()
    ensures
        alphabet().len() == 26,
        forall|i: int| 0 <= i < 26 ==> is_lowercase_letter(#[trigger] alphabet()[i]),
{
    reveal_strlit("abcdefghijklmnopqrstuvwxyz");
    let letters = alphabet();
    assert forall|i: int| 0 <= i < 26 implies is_lowercase_letter(#[trigger] letters[i]) by {
        if i < 13 {
            assert(letters[0] == 'a' && letters[1] == 'b' && letters[2] == 'c' && letters[3]
                == 'd' && letters[4] == 'e' && letters[5] == 'f' && letters[6] == 'g'
                && letters[7] == 'h' && letters[8] == 'i' && letters[9] == 'j' && letters[10]
                == 'k' && letters[11] == 'l' && letters[12] == 'm');
        } else {
            assert(letters[13] == 'n' && letters[14] == 'o' && letters[15] == 'p' && letters[16]
                == 'q' && letters[17] == 'r' && letters[18] == 's' && letters[19] == 't'
                && letters[20] == 'u' && letters[21] == 'v' && letters[22] == 'w' && letters[23]
                == 'x' && letters[24] == 'y' && letters[25] == 'z');
        }
    }
}

/// `rand::Rng::random_range` on `0..bound`, drawn from the generator of the
/// current thread (`rand::rng`). An empty range is left out, since the call
/// panics on it. All that is claimed of the number is that it lies in the
/// range; which one it is, is up to chance.
#[verifier::external_body]
fn random_below(bound: usize) -> (pick: usize)
    requires
        bound > 0,
    ensures
        pick < bound,
{
    rand::rng().random_range(0..bound)
}

/// The letter of the alphabet at place `pick`, as a string of its own.
pub fn letter(pick: usize) -> (piece: &'static str)
    requires
        pick < 26,
    ensures
        piece@ == seq![alphabet()[pick as int]],
{
    proof {
        lemma_alphabet();
    }
    let letters: &'static str = "abcdefghijklmnopqrstuvwxyz";
    let piece = letters.substring_char(pick, pick + 1);
    assert(piece@ =~= seq![alphabet()[pick as int]]);
    piece
}

/// The name that a row of picks spells: for each pick, the letter at that
/// place of the alphabet.
pub open spec fn name_of(picks: Seq<usize>) -> Seq<char> {
    Seq::new(picks.len(), |i: int| alphabet()[picks[i] as int])
}

/// Spells the name that the picks stand for, letter by letter.
pub fn name_from_picks(picks: &Vec<usize>) -> (name: String)
    requires
        forall|i: int| 0 <= i < picks@.len() ==> #[trigger] picks@[i] < 26,
    ensures
        name@ == name_of(picks@),
{
    let mut name = String::new();
    let mut spelled: usize = 0;
    while spelled < picks.len()
        invariant
            spelled <= picks@.len(),
            forall|i: int| 0 <= i < picks@.len() ==> #[trigger] picks@[i] < 26,
            name@ == name_of(picks@.take(spelled as int)),
        decreases picks@.len() - spelled,
    {
        let piece = letter(picks[spelled]);
        name.append(piece);
        spelled = spelled + 1;
        assert(name@ =~= name_of(picks@.take(spelled as int)));
    }
    assert(picks@.take(spelled as int) =~= picks@);
    name
}

/// Draws as many places of the alphabet as a generated name has letters.
fn draw_picks() -> (picks: Vec<usize>)
    ensures
        picks@.len() == NAME_LENGTH,
        forall|i: int| 0 <= i < picks@.len() ==> #[trigger] picks@[i] < 26,
{
    let mut picks: Vec<usize> = Vec::new();
    while picks.len() < NAME_LENGTH
        invariant
            picks@.len() <= NAME_LENGTH,
            forall|i: int| 0 <= i < picks@.len() ==> #[trigger] picks@[i] < 26,
        decreases NAME_LENGTH - picks@.len(),
    {
        picks.push(random_below(26));
    }
    picks
}

/// A name of five letters, each drawn anew from `a` to `z`.
pub fn generate_random_string() -> (name: String)
    ensures
        is_generated_name(name@),
{
    let picks = draw_picks();
    proof {
        lemma_alphabet();
    }
    name_from_picks(&picks)
}

/// The destination of a run: the one that was asked for, or else a
/// generated one. It is settled once, before any worker starts, and every
/// worker is handed the same.
pub fn resolve_destination(explicit: Option<String>) -> (destination: String)
    ensures
        explicit is Some ==> destination == explicit->Some_0,
        explicit is None ==> is_generated_name(destination@),
{
    match explicit {
        Some(name) => name,
        None => generate_random_string(),
    }
}

/// The address of a sink that speaks HTTP: `http://`, the host, a colon and
/// the port.
pub fn build_url(url: &str, port: &str) -> (address: String)
    ensures
        address@ == "http://"@ + url@ + ":"@ + port@,
{
    let mut address = String::from_str("http://");
    address.append(url);
    address.append(":");
    address.append(port);
    address
}

/// The address of a sink that is reached by host and port alone: the host,
/// a colon and the port.
pub fn build_address(host: &str, port: &str) -> (address: String)
    ensures
        address@ == host@ + ":"@ + port@,
{
    let mut address = String::from_str(host);
    address.append(":");
    address.append(port);
    address
}

} // verus!
