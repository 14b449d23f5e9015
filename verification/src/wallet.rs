//! Wallet-list entry handling: telling a hex address from a hex private key,
//! normalizing an address to its prefixed form, and masking a private key
//! for display. Reading the entries from disk and deriving an address from a
//! private key are the input collaborator's work; this module holds the
//! decisions taken on each entry's text.
use vstd::prelude::*;
use vstd::string::StrSliceExecFns;
use vstd::string::StringExecFns;

use crate::all_hex_digits;
use crate::is_hex_digit;

verus! {

/// The Unicode `White_Space` code points — the characters `str::trim`
/// strips from the ends of a text.
pub open spec fn spec_is_white_space(c: char) -> bool {
    ||| ('\u{0009}' <= c && c <= '\u{000D}')
    ||| c == ' '
    ||| c == '\u{0085}'
    ||| c == '\u{00A0}'
    ||| c == '\u{1680}'
    ||| ('\u{2000}' <= c && c <= '\u{200A}')
    ||| c == '\u{2028}'
    ||| c == '\u{2029}'
    ||| c == '\u{202F}'
    ||| c == '\u{205F}'
    ||| c == '\u{3000}'
}

/// What trimming an entry's text yields.
///
/// Relies on str::trim: returns the text without leading and trailing
/// whitespace — a subslice, so never longer — and depends on the characters
/// alone.
pub uninterp spec fn trim_of(s: Seq<char>) -> Seq<char>;

/// Trims leading and trailing whitespace from an entry's text.
///
/// Relies on str::trim (see [`trim_of`]): the result is a subslice, so
/// never longer, and a text whose ends are not whitespace (the Unicode
/// `White_Space` set, [`spec_is_white_space`]) trims to itself.
#[verifier::external_body]
pub fn trim_str<'a>(s: &'a str) -> (r: &'a str)
    ensures
        r@ == trim_of(s@),
        r@.len() <= s@.len(),
        s@.len() == 0 ==> r@ == s@,
        s@.len() > 0 && !spec_is_white_space(s@[0]) && !spec_is_white_space(
            s@[s@.len() - 1],
        ) ==> r@ == s@,
{
    s.trim()
}

/// The text begins with the `0x` prefix.
pub open spec fn spec_has_hex_prefix(s: Seq<char>) -> bool {
    s.len() >= 2 && s[0] == '0' && s[1] == 'x'
}

/// The trimmed text has the shape of a wallet address: a 20-byte hex string,
/// prefixed (42 characters beginning `0x`) or bare (40 hex characters).
pub open spec fn spec_is_address_form(s: Seq<char>) -> bool {
    ||| (spec_has_hex_prefix(s) && s.len() == 42 && all_hex_digits(s.skip(2)))
    ||| (!spec_has_hex_prefix(s) && s.len() == 40 && all_hex_digits(s))
}

/// The trimmed text has the shape of a private key: a 32-byte hex string,
/// prefixed (66 characters beginning `0x`) or bare (64 hex characters).
pub open spec fn spec_is_private_key_form(s: Seq<char>) -> bool {
    ||| (spec_has_hex_prefix(s) && s.len() == 66 && all_hex_digits(s.skip(2)))
    ||| (!spec_has_hex_prefix(s) && s.len() == 64 && all_hex_digits(s))
}

/// Decides whether the text begins with the `0x` prefix.
fn has_hex_prefix(s: &str) -> (r: bool)
    ensures
        r == spec_has_hex_prefix(s@),
{
    let n = s.unicode_len();
    n >= 2 && s.get_char(0) == '0' && s.get_char(1) == 'x'
}

/// Decides whether every character of `s` from `from` (inclusive) on is an
/// ASCII hexadecimal digit.
#[verifier::loop_isolation(false)]
fn all_hex_from(s: &str, from: usize) -> (r: bool)
    requires
        from <= s@.len(),
    ensures
        r == all_hex_digits(s@.skip(from as int)),
{
    let n = s.unicode_len();
    let mut i: usize = from;
    while i < n
        invariant
            from <= i <= n,
            forall|m: int| from <= m < i ==> crate::spec_is_hex_digit(#[trigger] s@[m]),
        decreases n - i,
    {
        if !is_hex_digit(s.get_char(i)) {
            proof {
                assert(s@.skip(from as int)[i - from] == s@[i as int]);
            }
            return false;
        }
        i = i + 1;
    }
    proof {
        assert forall|m: int| 0 <= m < s@.skip(from as int).len() implies crate::spec_is_hex_digit(
            #[trigger] s@.skip(from as int)[m],
        ) by {
            assert(s@.skip(from as int)[m] == s@[m + from]);
        }
    }
    true
}

/// Trims an input line and tells what it is: the trimmed text, and whether
/// it has the shape of a private key. A prefixed or bare 20-byte hex string
/// is an address; a prefixed or bare 32-byte hex string is a private key;
/// anything else is handed back trimmed, not taken for a key.
pub fn identify_input<'a>(input: &'a str) -> (r: (&'a str, bool))
    ensures
        r.0@ == trim_of(input@),
        r.1 == spec_is_private_key_form(trim_of(input@)),
{
    let trimmed = trim_str(input);
    let n = trimmed.unicode_len();
    let prefixed = has_hex_prefix(trimmed);
    proof {
        assert(trimmed@.skip(0) =~= trimmed@);
    }
    let is_key = if prefixed && n == 66 {
        all_hex_from(trimmed, 2)
    } else if !prefixed && n == 64 {
        all_hex_from(trimmed, 0)
    } else {
        false
    };
    (trimmed, is_key)
}

/// Decides whether a trimmed entry has the shape of a wallet address.
pub fn is_address_input(trimmed: &str) -> (r: bool)
    ensures
        r == spec_is_address_form(trimmed@),
{
    let n = trimmed.unicode_len();
    let prefixed = has_hex_prefix(trimmed);
    proof {
        assert(trimmed@.skip(0) =~= trimmed@);
    }
    if prefixed && n == 42 {
        all_hex_from(trimmed, 2)
    } else if !prefixed && n == 40 {
        all_hex_from(trimmed, 0)
    } else {
        false
    }
}

/// The text with the `0x` prefix put on when it is not already there.
pub open spec fn spec_with_hex_prefix(s: Seq<char>) -> Seq<char> {
    if spec_has_hex_prefix(s) {
        s
    } else {
        "0x"@ + s
    }
}

/// Puts the `0x` prefix on a hex string that lacks it.
pub fn with_hex_prefix(s: &str) -> (r: String)
    ensures
        r@ == spec_with_hex_prefix(s@),
{
    if has_hex_prefix(s) {
        s.to_owned()
    } else {
        let mut out = String::from_str("0x");
        out.append(s);
        out
    }
}

/// Masks a private key for display: a key of more than ten characters shows
/// its first six and last four characters around an ellipsis; a shorter text
/// is shown whole.
pub fn mask_private_key(pk: &str) -> (r: String)
    ensures
        pk@.len() <= 10 ==> r@ == pk@,
        pk@.len() > 10 ==> r@ == pk@.subrange(0, 6) + "..."@ + pk@.subrange(
            pk@.len() - 4,
            pk@.len() as int,
        ),
{
    let n = pk.unicode_len();
    if n <= 10 {
        pk.to_owned()
    } else {
        let head = pk.substring_char(0, 6);
        let tail = pk.substring_char(n - 4, n);
        let mut out = head.to_owned();
        out.append("...");
        out.append(tail);
        out
    }
}

/// One wallet-list entry, as the engine consumes it: a normalized address to
/// query directly, or a private key to hand to the key-derivation
/// collaborator.
pub enum WalletEntry {
    /// A prefixed wallet address, ready to query.
    Address(String),
    /// A private key, trimmed as entered, whose address must be derived.
    PrivateKey(String),
}

/// Classifies one wallet-list line: a private-key-shaped entry is handed on
/// for derivation as trimmed; anything else is taken as an address and
/// normalized to its prefixed form.
pub fn classify_wallet_entry(field: &str) -> (r: WalletEntry)
    ensures
        match r {
            WalletEntry::PrivateKey(k) => spec_is_private_key_form(trim_of(field@)) && k@
                == trim_of(field@),
            WalletEntry::Address(a) => !spec_is_private_key_form(trim_of(field@)) && a@
                == spec_with_hex_prefix(trim_of(field@)),
        },
{
    let (trimmed, is_key) = identify_input(field);
    if is_key {
        WalletEntry::PrivateKey(trimmed.to_owned())
    } else {
        WalletEntry::Address(with_hex_prefix(trimmed))
    }
}

/// Raw comma-separation of a configured list, scanning from position `i`
/// with the current piece starting at `start`: each comma ends a piece, and
/// the tail after the last comma is a piece too.
pub open spec fn spec_split_rec(s: Seq<char>, i: int, start: int, acc: Seq<Seq<char>>) -> Seq<
    Seq<char>,
>
    decreases s.len() - i when 0 <= start <= i <= s.len()
{
    if i >= s.len() {
        acc.push(s.subrange(start, i))
    } else if s[i] == ',' {
        spec_split_rec(s, i + 1, i + 1, acc.push(s.subrange(start, i)))
    } else {
        spec_split_rec(s, i + 1, start, acc)
    }
}

/// The comma-separated pieces of a text, in order.
pub open spec fn spec_split_commas(s: Seq<char>) -> Seq<Seq<char>> {
    spec_split_rec(s, 0, 0, Seq::empty())
}

/// The chain list a configured text stands for: its comma-separated pieces,
/// each trimmed, the empty ones dropped.
pub open spec fn spec_chain_list(s: Seq<char>) -> Seq<Seq<char>> {
    spec_split_commas(s).map_values(|t: Seq<char>| trim_of(t)).filter(
        |t: Seq<char>| t.len() > 0,
    )
}

/// Splits a text on commas into its raw pieces.
#[verifier::loop_isolation(false)]
fn split_commas(s: &str) -> (tokens: Vec<String>)
    ensures
        tokens@.map_values(|t: String| t@) == spec_split_commas(s@),
{
    let n = s.unicode_len();
    let mut tokens: Vec<String> = Vec::new();
    let mut start: usize = 0;
    let mut i: usize = 0;
    proof {
        assert(Seq::<String>::empty().map_values(|t: String| t@) =~= Seq::<Seq<char>>::empty());
    }
    while i < n
        invariant
            0 <= start <= i <= n,
            spec_split_commas(s@) == spec_split_rec(
                s@,
                i as int,
                start as int,
                tokens@.map_values(|t: String| t@),
            ),
        decreases n - i,
    {
        if s.get_char(i) == ',' {
            let piece = s.substring_char(start, i);
            let ghost pre = tokens@.map_values(|t: String| t@);
            tokens.push(piece.to_owned());
            proof {
                assert(piece@ == s@.subrange(start as int, i as int));
                assert(tokens@.map_values(|t: String| t@) =~= pre.push(
                    s@.subrange(start as int, i as int),
                ));
            }
            start = i + 1;
        }
        i = i + 1;
    }
    let piece = s.substring_char(start, n);
    let ghost pre = tokens@.map_values(|t: String| t@);
    tokens.push(piece.to_owned());
    proof {
        assert(piece@ == s@.subrange(start as int, n as int));
        assert(tokens@.map_values(|t: String| t@) =~= pre.push(
            s@.subrange(start as int, n as int),
        ));
    }
    tokens
}

/// Parses a configured chain list: splits the text on commas, trims each
/// piece, and drops the empty ones, keeping the configured order.
#[verifier::loop_isolation(false)]
pub fn parse_chain_list(s: &str) -> (r: Vec<String>)
    ensures
        r@.map_values(|c: String| c@) == spec_chain_list(s@),
{
    let ghost trim_piece = |t: Seq<char>| trim_of(t);
    let ghost nonempty = |t: Seq<char>| t.len() > 0;
    let tokens = split_commas(s);
    let ghost toks = tokens@.map_values(|t: String| t@);
    let mut r: Vec<String> = Vec::new();
    let mut i: usize = 0;
    proof {
        assert(toks.take(0) =~= Seq::<Seq<char>>::empty());
        assert(Seq::<Seq<char>>::empty().map_values(trim_piece) =~= Seq::<Seq<char>>::empty());
        assert(Seq::<Seq<char>>::empty().filter(nonempty) =~= Seq::<Seq<char>>::empty()) by {
            reveal(Seq::filter);
        }
        assert(Seq::<String>::empty().map_values(|c: String| c@) =~= Seq::<Seq<char>>::empty());
    }
    while i < tokens.len()
        invariant
            0 <= i <= tokens@.len(),
            toks == tokens@.map_values(|t: String| t@),
            r@.map_values(|c: String| c@) == toks.take(i as int).map_values(trim_piece).filter(
                nonempty,
            ),
        decreases tokens@.len() - i,
    {
        let ghost mapped = toks.take(i as int).map_values(trim_piece);
        proof {
            assert(toks.take(i as int + 1).map_values(trim_piece) =~= mapped.push(
                trim_piece(toks[i as int]),
            ));
            assert(mapped.push(trim_piece(toks[i as int])).drop_last() =~= mapped);
            assert(mapped.push(trim_piece(toks[i as int])).filter(nonempty) == (if nonempty(
                trim_piece(toks[i as int]),
            ) {
                mapped.filter(nonempty).push(trim_piece(toks[i as int]))
            } else {
                mapped.filter(nonempty)
            })) by {
                reveal(Seq::filter);
            }
        }
        let trimmed = trim_str(tokens[i].as_str());
        if !trimmed.is_empty() {
            let ghost pre = r@.map_values(|c: String| c@);
            r.push(trimmed.to_owned());
            proof {
                assert(r@.map_values(|c: String| c@) =~= pre.push(trim_of(toks[i as int])));
            }
        }
        i = i + 1;
    }
    proof {
        assert(toks.take(toks.len() as int) =~= toks);
    }
    r
}

} // verus!
