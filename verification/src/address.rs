//! The wallet address: what counts as one, how it is asked for and how it is
//! kept.

use crate::json::{object_text, parse_json, parsed_json, pretty_member_json, Json, JsonView};
use vstd::prelude::*;
use vstd::utf8::{encode_utf8, is_ascii_chars, is_ascii_chars_encode_utf8};

verus! {

/// Whether a character has Unicode's `White_Space` property.
pub open spec fn is_white_space(c: char) -> bool {
    let code = c as u32;
    ||| 0x09 <= code <= 0x0D
    ||| code == 0x20
    ||| code == 0x85
    ||| code == 0xA0
    ||| code == 0x1680
    ||| 0x2000 <= code <= 0x200A
    ||| code == 0x2028
    ||| code == 0x2029
    ||| code == 0x202F
    ||| code == 0x205F
    ||| code == 0x3000
}

/// A text without the white space at its start.
pub open spec fn trimmed_start(text: Seq<char>) -> Seq<char>
    decreases text.len(),
{
    if text.len() > 0 && is_white_space(text[0]) {
        trimmed_start(text.drop_first())
    } else {
        text
    }
}

/// A text without the white space at its end.
pub open spec fn trimmed_end(text: Seq<char>) -> Seq<char>
    decreases text.len(),
{
    if text.len() > 0 && is_white_space(text.last()) {
        trimmed_end(text.drop_last())
    } else {
        text
    }
}

/// A text without the white space at its two ends.
pub open spec fn trimmed(text: Seq<char>) -> Seq<char> {
    trimmed_end(trimmed_start(text))
}

/// `str::trim` removes leading and trailing white space, which is what has
/// Unicode's `White_Space` property.
pub assume_specification[ str::trim ](text: &str) -> (result: &str)
    ensures
        result@ == trimmed(text@),
;

/// The name of the member that holds the address in the saved configuration.
pub const ADDRESS_MEMBER: &'static str = "address";

/// Whether a text starts with another.
pub open spec fn starts_with(text: Seq<char>, prefix: Seq<char>) -> bool {
    prefix.len() <= text.len() && text.take(prefix.len() as int) == prefix
}

/// Whether a text, apart from white space round it, has the length in bytes and
/// the start of a Bitcoin address.
pub open spec fn looks_like_address(text: Seq<char>) -> bool {
    let address = trimmed(text);
    &&& 26 <= encode_utf8(address).len() <= 62
    &&& {
        ||| starts_with(address, seq!['1'])
        ||| starts_with(address, seq!['3'])
        ||| starts_with(address, seq!['b', 'c', '1'])
    }
}

/// The address that a saved configuration holds, where it looks like one.
pub open spec fn address_in_config(config: JsonView) -> Option<Seq<char>> {
    match config.member("address"@) {
        Some(JsonView::Text(address)) => if looks_like_address(address) {
            Some(address)
        } else {
            None
        },
        _ => None,
    }
}

/// Whether `text` starts with the characters of `prefix`.
fn has_prefix(text: &str, prefix: &[char]) -> (result: bool)
    ensures
        result == starts_with(text@, prefix@),
{
    let len: usize = prefix.len();
    if text.unicode_len() < len {
        return false;
    }
    let mut i: usize = 0;
    while i < len
        invariant
            i <= len,
            len == prefix@.len(),
            len <= text@.len(),
            text@.take(i as int) == prefix@.take(i as int),
        decreases len - i,
    {
        if text.get_char(i) != prefix[i] {
            assert(text@.take(len as int)[i as int] != prefix@[i as int]);
            return false;
        }
        assert(text@.take(i + 1) =~= prefix@.take(i + 1));
        i = i + 1;
    }
    assert(prefix@.take(len as int) =~= prefix@);
    true
}

/// Whether `addr`, apart from white space round it, is 26 to 62 bytes long and
/// starts with `1`, `3` or `bc1`.
pub fn looks_like_btc_address(addr: &str) -> (result: bool)
    ensures
        result == looks_like_address(addr@),
{
    let addr: &str = addr.trim();
    let len: usize = addr.as_bytes().len();
    let len_ok: bool = len >= 26 && len <= 62;
    let legacy: [char; 1] = ['1'];
    let script: [char; 1] = ['3'];
    let segwit: [char; 3] = ['b', 'c', '1'];
    proof {
        assert(legacy@ =~= seq!['1']);
        assert(script@ =~= seq!['3']);
        assert(segwit@ =~= seq!['b', 'c', '1']);
    }
    let prefix_ok: bool = has_prefix(addr, &legacy) || has_prefix(addr, &script) || has_prefix(
        addr,
        &segwit,
    );
    len_ok && prefix_ok
}

/// The address that was typed in, without white space round it, or `None` where
/// it does not look like one.
pub fn entered_address(input: &str) -> (address: Option<String>)
    ensures
        address is Some <==> looks_like_address(trimmed(input@)),
        address matches Some(a) ==> a@ == trimmed(input@),
{
    let address: String = input.trim().to_owned();
    if looks_like_btc_address(address.as_str()) {
        Some(address)
    } else {
        None
    }
}

/// The address in a saved configuration, or `None` where it holds none that
/// looks like one.
pub fn config_address(config: &Json) -> (address: Option<String>)
    ensures
        address matches Some(a) ==> address_in_config(config@) == Some(a@),
        address is None ==> address_in_config(config@) is None,
{
    match config.member(ADDRESS_MEMBER) {
        Some(member) => match member.text() {
            Some(address) => if looks_like_btc_address(address) {
                Some(address.to_owned())
            } else {
                None
            },
            None => None,
        },
        None => None,
    }
}

/// The address in the text of a saved configuration, or `None` where the text is
/// no JSON or holds none that looks like one.
pub fn saved_address(contents: &str) -> (address: Option<String>)
    ensures
        address matches Some(a) ==> parsed_json(contents@) is Some && address_in_config(
            parsed_json(contents@)->0,
        ) == Some(a@),
        address is None ==> (parsed_json(contents@) matches Some(config)
            ==> address_in_config(config) is None),
{
    match parse_json(contents) {
        Some(config) => config_address(&config),
        None => None,
    }
}

/// The text of a configuration that keeps `address`. It reads back as an object
/// with that one member.
pub fn config_text(address: &str) -> (contents: String)
    ensures
        contents@ == pretty_member_json("address"@, address@),
        parsed_json(contents@) == Some(
            JsonView::Object(seq![("address"@, JsonView::Text(address@))]),
        ),
        looks_like_address(address@) ==> address_in_config(parsed_json(contents@)->0) == Some(
            address@,
        ),
{
    object_text(ADDRESS_MEMBER, address)
}

/// The directory that holds the configuration: the home directory, else the user
/// profile, else the current one.
pub fn config_directory(home: Option<String>, profile: Option<String>) -> (directory: String)
    ensures
        directory@ == (match (home, profile) {
            (Some(home), _) => home@,
            (None, Some(profile)) => profile@,
            (None, None) => "."@,
        }),
{
    match home {
        Some(home) => home,
        None => match profile {
            Some(profile) => profile,
            None => ".".to_owned(),
        },
    }
}

/// A configuration that keeps an address which looks like one gives that
/// address back.
pub proof fn law_saved_address_is_read_back(address: Seq<char>)
    requires
        looks_like_address(address),
    ensures
        address_in_config(JsonView::Object(seq![("address"@, JsonView::Text(address))])) == Some(
            address,
        ),
{
}

/// White space at the ends of an address makes no difference to whether it looks
/// like one.
pub proof fn law_white_space_is_ignored(text: Seq<char>)
    ensures
        looks_like_address(trimmed(text)) == looks_like_address(text),
{
    law_trimming_is_final(text);
}

/// Trimming a trimmed text changes nothing, so what is asked for and accepted is
/// accepted again when it is loaded.
pub proof fn law_trimming_is_final(text: Seq<char>)
    ensures
        trimmed(trimmed(text)) == trimmed(text),
{
    lemma_trimmed_start_begins(text);
    lemma_trimmed_end_ends(trimmed_start(text));
}

proof fn lemma_trimmed_start_begins(text: Seq<char>)
    ensures
        trimmed_start(text).len() > 0 ==> !is_white_space(trimmed_start(text)[0]),
    decreases text.len(),
{
    if text.len() > 0 && is_white_space(text[0]) {
        lemma_trimmed_start_begins(text.drop_first());
    }
}

proof fn lemma_trimmed_end_ends(text: Seq<char>)
    ensures
        trimmed_end(text).len() > 0 ==> !is_white_space(trimmed_end(text).last())
            && trimmed_end(text)[0] == text[0] && text.len() > 0,
    decreases text.len(),
{
    if text.len() > 0 && is_white_space(text.last()) {
        lemma_trimmed_end_ends(text.drop_last());
    }
}

/// Whether a text has white space neither at its start nor at its end.
pub open spec fn has_bare_ends(text: Seq<char>) -> bool {
    text.len() > 0 ==> !is_white_space(text[0]) && !is_white_space(text.last())
}

/// Whether a text is nothing but white space.
pub open spec fn is_blank(text: Seq<char>) -> bool {
    forall|i: int| 0 <= i < text.len() ==> is_white_space(#[trigger] text[i])
}

/// Whether a text begins as an address does: with the character 1 or 3, or with
/// the characters b, c and 1.
pub open spec fn begins_as_an_address(text: Seq<char>) -> bool {
    ||| text.len() >= 1 && text[0] == '1'
    ||| text.len() >= 1 && text[0] == '3'
    ||| text.len() >= 3 && text[0] == 'b' && text[1] == 'c' && text[2] == '1'
}

/// What stands between the white space at the two ends of a text is what trimming
/// leaves of it.
pub proof fn law_trimming_takes_the_white_space(
    before: Seq<char>,
    text: Seq<char>,
    after: Seq<char>,
)
    requires
        is_blank(before),
        has_bare_ends(text),
        is_blank(after),
    ensures
        trimmed(before + text + after) == text,
{
    lemma_trimmed_start_takes(before, text + after);
    assert(before + text + after =~= before + (text + after));
    if text.len() == 0 {
        assert(text + after =~= after);
        lemma_trimmed_start_takes(after, Seq::empty());
        assert(after + Seq::<char>::empty() =~= after);
        assert(trimmed(before + text + after) =~= text);
    } else {
        assert((text + after)[0] == text[0]);
        lemma_trimmed_end_takes(text, after);
    }
}

/// An address is taken exactly where what stands between the white space at its
/// ends has 26 to 62 bytes and begins with 1, 3 or bc1, whatever follows.
pub proof fn law_addresses_are_recognised(
    addr: &str,
    result: bool,
    before: Seq<char>,
    text: Seq<char>,
    after: Seq<char>,
)
    requires
        call_ensures(looks_like_btc_address, (addr,), result),
        addr@ == before + text + after,
        is_blank(before),
        has_bare_ends(text),
        is_blank(after),
    ensures
        result <==> 26 <= encode_utf8(text).len() <= 62 && begins_as_an_address(text),
{
    law_trimming_takes_the_white_space(before, text, after);
    lemma_address_start(text);
}

/// An address of ASCII characters without white space at its ends is taken
/// exactly where it has 26 to 62 of them and begins with 1, 3 or bc1.
pub proof fn law_ascii_addresses_are_recognised(addr: &str, result: bool)
    requires
        call_ensures(looks_like_btc_address, (addr,), result),
        has_bare_ends(addr@),
        is_ascii_chars(addr@),
    ensures
        result <==> 26 <= addr@.len() <= 62 && begins_as_an_address(addr@),
{
    let nothing = Seq::<char>::empty();
    assert(nothing + addr@ + nothing =~= addr@);
    law_addresses_are_recognised(addr, result, nothing, addr@, nothing);
    is_ascii_chars_encode_utf8(addr@);
}

/// What is typed in is taken exactly where it is an address between white space,
/// and it is the address itself that is kept.
pub proof fn law_entered_addresses(
    input: &str,
    entered: Option<String>,
    before: Seq<char>,
    text: Seq<char>,
    after: Seq<char>,
)
    requires
        call_ensures(entered_address, (input,), entered),
        input@ == before + text + after,
        is_blank(before),
        has_bare_ends(text),
        is_blank(after),
    ensures
        entered is Some <==> 26 <= encode_utf8(text).len() <= 62 && begins_as_an_address(text),
        entered matches Some(address) ==> address@ == text,
{
    law_trimming_takes_the_white_space(before, text, after);
    law_trimming_is_final(input@);
    lemma_address_start(text);
}

/// A saved configuration gives the text of its address exactly as it stands
/// there where that is taken as an address, and nothing where it is not, where it
/// is no string or where there is none.
pub proof fn law_configured_addresses(config: &Json, address: Option<String>)
    requires
        call_ensures(config_address, (config,), address),
    ensures
        match config@.member("address"@) {
            Some(JsonView::Text(text)) => {
                &&& address is Some <==> looks_like_address(text)
                &&& address matches Some(a) ==> a@ == text
            },
            _ => address is None,
        },
{
}

/// The text of a configuration gives the address that the configuration holds,
/// with whatever else stands in it, and nothing where it is no JSON.
pub proof fn law_loaded_addresses(contents: &str, address: Option<String>)
    requires
        call_ensures(saved_address, (contents,), address),
    ensures
        parsed_json(contents@) is None ==> address is None,
        parsed_json(contents@) matches Some(config) ==> match config.member("address"@) {
            Some(JsonView::Text(text)) => {
                &&& address is Some <==> looks_like_address(text)
                &&& address matches Some(a) ==> a@ == text
            },
            _ => address is None,
        },
{
}

/// What is typed in, taken and saved is what is loaded the next time.
pub proof fn law_saved_addresses_come_back(
    input: &str,
    entered: String,
    address: &str,
    contents: String,
    text: &str,
    loaded: Option<String>,
)
    requires
        call_ensures(entered_address, (input,), Some(entered)),
        address@ == entered@,
        call_ensures(config_text, (address,), contents),
        text@ == contents@,
        call_ensures(saved_address, (text,), loaded),
    ensures
        loaded matches Some(a) && a@ == entered@,
{
    law_saved_address_is_read_back(entered@);
}

/// The configuration of an address is a JSON text of one object, whose only
/// member is the address under its name.
pub proof fn law_configurations_hold_the_address(address: &str, contents: String)
    requires
        call_ensures(config_text, (address,), contents),
    ensures
        parsed_json(contents@) matches Some(JsonView::Object(members)) && members.len() == 1
            && members[0].0 == "address"@ && members[0].1 == JsonView::Text(address@),
{
}

/// The configuration is kept in the home directory, wherever there is one, and
/// otherwise in the user profile.
pub proof fn law_home_comes_first(
    home: Option<String>,
    profile: Option<String>,
    directory: String,
)
    requires
        call_ensures(config_directory, (home, profile), directory),
    ensures
        home matches Some(h) ==> directory@ == h@,
        home is None ==> (profile matches Some(p) ==> directory@ == p@),
        home is None && profile is None ==> directory@ == "."@,
{
}

proof fn lemma_trimmed_start_takes(before: Seq<char>, text: Seq<char>)
    requires
        is_blank(before),
        text.len() > 0 ==> !is_white_space(text[0]) || is_blank(text),
    ensures
        text.len() > 0 && !is_white_space(text[0]) ==> trimmed_start(before + text) == text,
        text.len() == 0 || is_blank(text) ==> trimmed_start(before + text).len() == 0,
    decreases before.len() + text.len(),
{
    let whole = before + text;
    if before.len() > 0 {
        assert(whole[0] == before[0]);
        assert(whole.drop_first() =~= before.drop_first() + text);
        assert forall|i: int| 0 <= i < before.drop_first().len() implies is_white_space(
            #[trigger] before.drop_first()[i],
        ) by {
            assert(is_white_space(before[i + 1]));
        }
        lemma_trimmed_start_takes(before.drop_first(), text);
    } else {
        assert(whole =~= text);
        if text.len() > 0 && is_blank(text) {
            assert(is_white_space(text[0]));
            assert forall|i: int| 0 <= i < text.drop_first().len() implies is_white_space(
                #[trigger] text.drop_first()[i],
            ) by {
                assert(is_white_space(text[i + 1]));
            }
            assert(before + text.drop_first() =~= text.drop_first());
            lemma_trimmed_start_takes(before, text.drop_first());
        }
    }
}

proof fn lemma_trimmed_end_takes(text: Seq<char>, after: Seq<char>)
    requires
        is_blank(after),
        text.len() > 0,
        !is_white_space(text.last()),
    ensures
        trimmed_end(text + after) == text,
    decreases after.len(),
{
    let whole = text + after;
    if after.len() > 0 {
        assert(is_white_space(after[after.len() - 1]));
        assert(whole.last() == after.last());
        assert(whole.drop_last() =~= text + after.drop_last());
        lemma_trimmed_end_takes(text, after.drop_last());
    } else {
        assert(whole =~= text);
    }
}

proof fn lemma_address_start(text: Seq<char>)
    requires
        has_bare_ends(text),
    ensures
        looks_like_address(text) <==> 26 <= encode_utf8(text).len() <= 62 && begins_as_an_address(
            text,
        ),
{
    let nothing = Seq::<char>::empty();
    assert(nothing + text + nothing =~= text);
    law_trimming_takes_the_white_space(nothing, text, nothing);
    if text.len() >= 1 {
        assert(text.take(1) =~= seq![text[0]]);
        assert(seq![text[0]][0] == text[0]);
        assert(seq!['1'][0] == '1');
        assert(seq!['3'][0] == '3');
    }
    if text.len() >= 3 {
        assert(text.take(3) =~= seq![text[0], text[1], text[2]]);
        let start = seq!['b', 'c', '1'];
        assert(start[0] == 'b' && start[1] == 'c' && start[2] == '1');
        if text[0] == 'b' && text[1] == 'c' && text[2] == '1' {
            assert(text.take(3) =~= start);
        }
    }
}

} // verus!
