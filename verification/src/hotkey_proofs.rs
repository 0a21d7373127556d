//! What holds of the hotkey parser: which strings parse and to what, which
//! fault each of the others ends in, and that case does not matter.

use crate::hotkey::{
    key_named, modifier_named, parsed_hotkey, read_token, read_tokens, Key, Modifier, Modifiers,
    ParseFault, Reading,
};
use crate::text::{
    ascii_lower, ascii_upper, is_ascii_letter, is_whitespace, join_with, lemma_split_nonempty,
    lemma_split_of_join, split_on, to_ascii_lower, trim, trim_end, trim_start,
};
use vstd::prelude::*;

verus! {

/// The modifiers that the tokens of `mods` name, as one set.
spec fn modifiers_named(mods: Seq<Seq<char>>) -> Modifiers
    decreases mods.len(),
{
    if mods.len() == 0 {
        Modifiers::none()
    } else {
        match modifier_named(mods.last()) {
            Some(m) => modifiers_named(mods.drop_last()).plus(m),
            None => modifiers_named(mods.drop_last()),
        }
    }
}

/// Whether `word` is made of the letters `a` to `z` alone.
spec fn is_small_word(word: Seq<char>) -> bool {
    forall|i: int| 0 <= i < word.len() ==> 'a' <= #[trigger] word[i] && word[i] <= 'z'
}

/// Each modifier name is made of three or more small letters.
proof fn lemma_modifier_names()
    ensures
        is_small_word("ctrl"@) && "ctrl"@.len() == 4,
        is_small_word("control"@) && "control"@.len() == 7,
        is_small_word("shift"@) && "shift"@.len() == 5,
        is_small_word("alt"@) && "alt"@.len() == 3,
        is_small_word("super"@) && "super"@.len() == 5,
        is_small_word("meta"@) && "meta"@.len() == 4,
        is_small_word("cmd"@) && "cmd"@.len() == 3,
        is_small_word("command"@) && "command"@.len() == 7,
{
    reveal_strlit("ctrl");
    reveal_strlit("control");
    reveal_strlit("shift");
    reveal_strlit("alt");
    reveal_strlit("super");
    reveal_strlit("meta");
    reveal_strlit("cmd");
    reveal_strlit("command");
}

/// A token that names a modifier is made of three or more ASCII letters.
proof fn lemma_modifier_token_is_word(token: Seq<char>)
    requires
        modifier_named(token) is Some,
    ensures
        token.len() >= 3,
        forall|i: int| 0 <= i < token.len() ==> is_ascii_letter(#[trigger] token[i]),
{
    lemma_modifier_names();
    let word = to_ascii_lower(token);
    assert(word.len() == token.len());
    assert(is_small_word(word));
    assert forall|i: int| 0 <= i < token.len() implies is_ascii_letter(#[trigger] token[i]) by {
        assert(word[i] == ascii_lower(token[i]));
        assert('a' <= word[i] && word[i] <= 'z');
    }
}

/// A word of ASCII letters holds no `+` and is its own trimmed form.
proof fn lemma_word_is_plain(word: Seq<char>)
    requires
        forall|i: int| 0 <= i < word.len() ==> is_ascii_letter(#[trigger] word[i]),
    ensures
        !word.contains('+'),
        trim(word) == word,
{
    if word.len() > 0 {
        assert(is_ascii_letter(word[0]));
        assert(is_ascii_letter(word[word.len() - 1]));
    }
}

/// Reading tokens that all name modifiers gathers the named modifiers and no key.
proof fn lemma_read_modifiers(mods: Seq<Seq<char>>)
    requires
        forall|i: int| 0 <= i < mods.len() ==> modifier_named(#[trigger] mods[i]) is Some,
    ensures
        read_tokens(mods) == Ok::<Reading, ParseFault>(
            Reading { modifiers: modifiers_named(mods), key: None },
        ),
        forall|m: Modifier|
            modifiers_named(mods).has(m) <==> exists|i: int|
                0 <= i < mods.len() && modifier_named(#[trigger] mods[i]) == Some(m),
    decreases mods.len(),
{
    if mods.len() > 0 {
        let init = mods.drop_last();
        let last = mods.last();
        assert forall|i: int| 0 <= i < init.len() implies modifier_named(#[trigger] init[i])
            is Some by {
            assert(init[i] == mods[i]);
        }
        lemma_read_modifiers(init);
        lemma_modifier_token_is_word(last);
        lemma_word_is_plain(last);
        let added = modifier_named(last)->0;
        assert(modifiers_named(mods) == modifiers_named(init).plus(added));
        assert(modifier_named(mods[mods.len() - 1]) == Some(added));
        assert forall|m: Modifier|
            modifiers_named(mods).has(m) <==> exists|i: int|
                0 <= i < mods.len() && modifier_named(#[trigger] mods[i]) == Some(m) by {
            assert(modifiers_named(mods).has(m) == (modifiers_named(init).has(m) || m == added));
            if modifiers_named(mods).has(m) {
                if modifiers_named(init).has(m) {
                    let i = choose|i: int|
                        0 <= i < init.len() && modifier_named(#[trigger] init[i]) == Some(m);
                    assert(mods[i] == init[i]);
                } else {
                    assert(m == added);
                    assert(modifier_named(mods[mods.len() - 1]) == Some(m));
                }
            }
            if exists|i: int| 0 <= i < mods.len() && modifier_named(#[trigger] mods[i]) == Some(m) {
                let i = choose|i: int|
                    0 <= i < mods.len() && modifier_named(#[trigger] mods[i]) == Some(m);
                if i < init.len() {
                    assert(init[i] == mods[i]);
                }
            }
        }
    }
}

/// Every well-formed hotkey string parses to what it names.
///
/// Let the text be `M1+...+Mk+X`, with at most three tokens `Mi` that each
/// name a modifier in any mix of case, followed by a single letter `X`. Then
/// it parses; the key is `X` as a capital, and the modifier set holds exactly
/// the modifiers that the `Mi` name, however often each is repeated.
pub proof fn lemma_well_formed_parses(mods: Seq<Seq<char>>, letter: char)
    requires
        mods.len() <= 3,
        forall|i: int| 0 <= i < mods.len() ==> modifier_named(#[trigger] mods[i]) is Some,
        is_ascii_letter(letter),
    ensures
        ({
            let text = join_with(mods.push(seq![letter]), '+');
            &&& parsed_hotkey(text) matches Ok(spec)
            &&& spec.key@ == ascii_upper(letter)
            &&& forall|m: Modifier|
                spec.modifiers@.contains(m) <==> exists|i: int|
                    0 <= i < mods.len() && modifier_named(#[trigger] mods[i]) == Some(m)
        }),
{
    let key_token = seq![letter];
    let tokens = mods.push(key_token);
    assert forall|i: int| 0 <= i < tokens.len() implies !(#[trigger] tokens[i]).contains('+') by {
        if i < mods.len() {
            assert(tokens[i] == mods[i]);
            lemma_modifier_token_is_word(mods[i]);
            lemma_word_is_plain(mods[i]);
        } else {
            lemma_word_is_plain(key_token);
        }
    }
    lemma_split_of_join(tokens, '+');
    let text = join_with(tokens, '+');
    assert(text.len() > 0) by {
        if text.len() == 0 {
            assert(split_on(text, '+') =~= seq![Seq::<char>::empty()]);
            assert(tokens[0].len() == 0);
            assert(tokens[0] == key_token);
        }
    }
    lemma_read_modifiers(mods);
    lemma_word_is_plain(key_token);
    assert(tokens.drop_last() =~= mods);
    lemma_modifier_names();
    assert(to_ascii_lower(key_token).len() == 1);
    assert(modifier_named(key_token) is None);
    Key::lemma_lettered(ascii_upper(letter));
}

/// Whether every one of `tokens`, once trimmed, names a modifier.
pub open spec fn all_modifiers(tokens: Seq<Seq<char>>) -> bool {
    forall|i: int| 0 <= i < tokens.len() ==> modifier_named(trim(#[trigger] tokens[i])) is Some
}

/// Whether token `j` of `tokens`, once trimmed, is a single letter and every
/// other token names a modifier.
pub open spec fn lone_key_at(tokens: Seq<Seq<char>>, j: int) -> bool {
    &&& 0 <= j < tokens.len()
    &&& key_named(trim(tokens[j])) is Ok
    &&& forall|i: int|
        0 <= i < tokens.len() && i != j ==> modifier_named(trim(#[trigger] tokens[i])) is Some
}

/// Whether one of `tokens`, once trimmed, names the modifier `m`.
pub open spec fn names_modifier(tokens: Seq<Seq<char>>, m: Modifier) -> bool {
    exists|i: int| 0 <= i < tokens.len() && modifier_named(trim(#[trigger] tokens[i])) == Some(m)
}

/// A single letter names no modifier.
proof fn lemma_key_is_no_modifier(token: Seq<char>)
    requires
        key_named(token) is Ok,
    ensures
        modifier_named(token) is None,
{
    lemma_modifier_names();
    assert(to_ascii_lower(token).len() == 1);
}

/// What a reading of tokens comes to. It gathers no key exactly where every
/// token names a modifier, and a key exactly where one token is a single
/// letter and every other names a modifier: then the key is that letter. The
/// modifiers it gathers are those that the tokens name.
pub proof fn lemma_reading_means(tokens: Seq<Seq<char>>)
    ensures
        read_tokens(tokens) matches Ok(reading) ==> forall|m: Modifier|
            reading.modifiers.has(m) <==> names_modifier(tokens, m),
        (read_tokens(tokens) matches Ok(reading) && reading.key is None) <==> all_modifiers(
            tokens,
        ),
        (read_tokens(tokens) matches Ok(reading) && reading.key is Some) <==> exists|j: int|
            lone_key_at(tokens, j),
        forall|j: int|
            lone_key_at(tokens, j) ==> read_tokens(tokens)->Ok_0.key == Some(
                key_named(trim(tokens[j]))->Ok_0,
            ),
    decreases tokens.len(),
{
    if tokens.len() == 0 {
        assert forall|m: Modifier| !names_modifier(tokens, m) by {}
    } else {
        let init = tokens.drop_last();
        let last = tokens.last();
        let n = tokens.len() - 1;
        lemma_reading_means(init);
        assert(forall|i: int| 0 <= i < n ==> init[i] == tokens[i]);
        assert(last == tokens[n]);
        if key_named(trim(last)) is Ok {
            lemma_key_is_no_modifier(trim(last));
        }
        // What the tokens are, from what the tokens before the last are.
        assert(all_modifiers(tokens) <==> all_modifiers(init) && modifier_named(trim(last))
            is Some) by {
            if all_modifiers(tokens) {
                assert forall|i: int| 0 <= i < init.len() implies modifier_named(
                    trim(#[trigger] init[i]),
                ) is Some by {
                    assert(init[i] == tokens[i]);
                }
                assert(modifier_named(trim(tokens[n])) is Some);
            }
            if all_modifiers(init) && modifier_named(trim(last)) is Some {
                assert forall|i: int| 0 <= i < tokens.len() implies modifier_named(
                    trim(#[trigger] tokens[i]),
                ) is Some by {
                    if i < n {
                        assert(init[i] == tokens[i]);
                    }
                }
            }
        }
        assert forall|j: int| lone_key_at(tokens, j) implies if j == n {
            all_modifiers(init)
        } else {
            lone_key_at(init, j) && modifier_named(trim(last)) is Some
        } by {
            if j == n {
                assert forall|i: int| 0 <= i < init.len() implies modifier_named(
                    trim(#[trigger] init[i]),
                ) is Some by {
                    assert(init[i] == tokens[i]);
                }
            } else {
                assert(init[j] == tokens[j]);
                assert forall|i: int| 0 <= i < init.len() && i != j implies modifier_named(
                    trim(#[trigger] init[i]),
                ) is Some by {
                    assert(init[i] == tokens[i]);
                }
                assert(modifier_named(trim(tokens[n])) is Some);
            }
        }
        if all_modifiers(init) && key_named(trim(last)) is Ok {
            assert(lone_key_at(tokens, n)) by {
                assert forall|i: int| 0 <= i < tokens.len() && i != n implies modifier_named(
                    trim(#[trigger] tokens[i]),
                ) is Some by {
                    assert(init[i] == tokens[i]);
                }
            }
        }
        if modifier_named(trim(last)) is Some {
            if exists|j: int| lone_key_at(init, j) {
                let j = choose|j: int| lone_key_at(init, j);
                assert(init[j] == tokens[j]);
                assert(lone_key_at(tokens, j)) by {
                    assert forall|i: int| 0 <= i < tokens.len() && i != j implies modifier_named(
                        trim(#[trigger] tokens[i]),
                    ) is Some by {
                        if i < n {
                            assert(init[i] == tokens[i]);
                        }
                    }
                }
            }
        }
        if exists|j: int| lone_key_at(init, j) {
            let j = choose|j: int| lone_key_at(init, j);
            assert(init[j] == tokens[j]);
            lemma_key_is_no_modifier(trim(init[j]));
            assert(!all_modifiers(init));
        }
        // The modifiers named.
        if let Ok(reading) = read_tokens(tokens) {
            let so_far = read_tokens(init)->Ok_0;
            assert forall|m: Modifier| reading.modifiers.has(m) <==> names_modifier(tokens, m) by {
                assert(so_far.modifiers.has(m) <==> names_modifier(init, m));
                if names_modifier(init, m) {
                    let i = choose|i: int|
                        0 <= i < init.len() && modifier_named(trim(#[trigger] init[i])) == Some(m);
                    assert(init[i] == tokens[i]);
                    assert(names_modifier(tokens, m));
                }
                if names_modifier(tokens, m) {
                    let i = choose|i: int|
                        0 <= i < tokens.len() && modifier_named(trim(#[trigger] tokens[i]))
                            == Some(m);
                    if i < n {
                        assert(init[i] == tokens[i]);
                        assert(names_modifier(init, m));
                    }
                }
                if modifier_named(trim(last)) == Some(m) {
                    assert(modifier_named(trim(tokens[n])) == Some(m));
                    assert(names_modifier(tokens, m));
                }
            }
        }
    }
}

/// Whether token `j` is the first of `tokens` that, once trimmed, names no
/// modifier.
pub open spec fn first_candidate_at(tokens: Seq<Seq<char>>, j: int) -> bool {
    &&& 0 <= j < tokens.len()
    &&& modifier_named(trim(tokens[j])) is None
    &&& forall|i: int| 0 <= i < j ==> modifier_named(trim(#[trigger] tokens[i])) is Some
}

/// Where the first token that names no modifier is no single letter either,
/// the reading ends in the fault of that token.
pub proof fn lemma_first_candidate_faulty(tokens: Seq<Seq<char>>, j: int)
    requires
        first_candidate_at(tokens, j),
        key_named(trim(tokens[j])) is Err,
    ensures
        read_tokens(tokens) == Err::<Reading, ParseFault>(key_named(trim(tokens[j]))->Err_0),
    decreases tokens.len(),
{
    let init = tokens.drop_last();
    let n = tokens.len() - 1;
    assert(forall|i: int| 0 <= i < n ==> init[i] == tokens[i]);
    if j < n {
        assert(init[j] == tokens[j]);
        assert(first_candidate_at(init, j)) by {
            assert forall|i: int| 0 <= i < j implies modifier_named(trim(#[trigger] init[i]))
                is Some by {
                assert(init[i] == tokens[i]);
            }
        }
        lemma_first_candidate_faulty(init, j);
    } else {
        assert(all_modifiers(init)) by {
            assert forall|i: int| 0 <= i < init.len() implies modifier_named(
                trim(#[trigger] init[i]),
            ) is Some by {
                assert(init[i] == tokens[i]);
            }
        }
        lemma_reading_means(init);
    }
}

/// Where the first token that names no modifier is a single letter and a
/// later token names no modifier either, the reading ends in
/// [`ParseFault::MultipleKeys`].
pub proof fn lemma_second_candidate(tokens: Seq<Seq<char>>, j: int, k: int)
    requires
        first_candidate_at(tokens, j),
        key_named(trim(tokens[j])) is Ok,
        j < k < tokens.len(),
        modifier_named(trim(tokens[k])) is None,
    ensures
        read_tokens(tokens) == Err::<Reading, ParseFault>(ParseFault::MultipleKeys),
    decreases tokens.len(),
{
    let init = tokens.drop_last();
    let n = tokens.len() - 1;
    assert(forall|i: int| 0 <= i < n ==> init[i] == tokens[i]);
    assert(init[j] == tokens[j]);
    assert(first_candidate_at(init, j)) by {
        assert forall|i: int| 0 <= i < j implies modifier_named(trim(#[trigger] init[i]))
            is Some by {
            assert(init[i] == tokens[i]);
        }
    }
    if k < n {
        assert(init[k] == tokens[k]);
        lemma_second_candidate(init, j, k);
    } else if exists|other: int| j < other < n && modifier_named(trim(tokens[other])) is None {
        let other = choose|other: int| j < other < n && modifier_named(trim(tokens[other])) is None;
        assert(init[other] == tokens[other]);
        lemma_second_candidate(init, j, other);
    } else {
        assert(lone_key_at(init, j)) by {
            assert forall|i: int| 0 <= i < init.len() && i != j implies modifier_named(
                trim(#[trigger] init[i]),
            ) is Some by {
                assert(init[i] == tokens[i]);
                if i > j {
                    assert(!(j < i < n && modifier_named(trim(tokens[i])) is None));
                }
            }
        }
        lemma_reading_means(init);
    }
}

/// Whether `text` is a well-formed hotkey string: not empty, of at most four
/// tokens, of which exactly one is a single letter and the others name
/// modifiers.
pub open spec fn well_formed(text: Seq<char>) -> bool {
    let tokens = split_on(text, '+');
    &&& text.len() > 0
    &&& tokens.len() <= 4
    &&& exists|j: int| lone_key_at(tokens, j)
}

/// A hotkey string parses if and only if it is well-formed, and then to the
/// letter and the modifiers that its tokens name.
pub proof fn lemma_parse_means(text: Seq<char>)
    ensures
        parsed_hotkey(text) is Ok <==> well_formed(text),
        parsed_hotkey(text) matches Ok(hotkey) ==> {
            &&& forall|m: Modifier|
                hotkey.modifiers@.contains(m) <==> names_modifier(split_on(text, '+'), m)
            &&& forall|j: int|
                lone_key_at(split_on(text, '+'), j) ==> key_named(
                    trim(split_on(text, '+')[j]),
                ) == Ok::<Key, ParseFault>(hotkey.key)
        },
{
    lemma_reading_means(split_on(text, '+'));
}

impl ParseFault {
    /// Whether two faults are of one kind and name tokens that differ at most
    /// in the case of ASCII letters.
    pub open spec fn alike(self, other: ParseFault) -> bool {
        match (self, other) {
            (ParseFault::Malformed, ParseFault::Malformed) => true,
            (ParseFault::MultipleKeys, ParseFault::MultipleKeys) => true,
            (ParseFault::NoKey, ParseFault::NoKey) => true,
            (ParseFault::UnsupportedKey(a), ParseFault::UnsupportedKey(b)) => same_but_case(a, b),
            _ => false,
        }
    }
}

/// Whether two texts differ at most in the case of ASCII letters.
pub open spec fn same_but_case(a: Seq<char>, b: Seq<char>) -> bool {
    to_ascii_lower(a) == to_ascii_lower(b)
}

/// Texts that differ only in case have one length and agree, character by
/// character, once lowered.
proof fn lemma_same_but_case(a: Seq<char>, b: Seq<char>)
    ensures
        same_but_case(a, b) <==> (a.len() == b.len() && forall|i: int|
            0 <= i < a.len() ==> ascii_lower(#[trigger] a[i]) == ascii_lower(b[i])),
{
    if same_but_case(a, b) {
        assert(to_ascii_lower(a).len() == a.len());
        assert(to_ascii_lower(b).len() == b.len());
        assert forall|i: int| 0 <= i < a.len() implies ascii_lower(#[trigger] a[i]) == ascii_lower(
            b[i],
        ) by {
            assert(to_ascii_lower(a)[i] == ascii_lower(a[i]));
            assert(to_ascii_lower(b)[i] == ascii_lower(b[i]));
        }
    }
    if a.len() == b.len() && forall|i: int|
        0 <= i < a.len() ==> ascii_lower(#[trigger] a[i]) == ascii_lower(b[i]) {
        assert(to_ascii_lower(a) =~= to_ascii_lower(b));
    }
}

/// Splitting ignores case: the pieces of two such texts differ only in case.
proof fn lemma_split_ignores_case(a: Seq<char>, b: Seq<char>)
    requires
        same_but_case(a, b),
    ensures
        split_on(a, '+').len() == split_on(b, '+').len(),
        forall|i: int|
            0 <= i < split_on(a, '+').len() ==> same_but_case(
                #[trigger] split_on(a, '+')[i],
                split_on(b, '+')[i],
            ),
    decreases a.len(),
{
    lemma_same_but_case(a, b);
    if a.len() > 0 {
        let a0 = a.drop_last();
        let b0 = b.drop_last();
        assert forall|i: int| 0 <= i < a0.len() implies ascii_lower(#[trigger] a0[i])
            == ascii_lower(b0[i]) by {
            assert(a0[i] == a[i]);
            assert(b0[i] == b[i]);
        }
        lemma_same_but_case(a0, b0);
        lemma_split_ignores_case(a0, b0);
        lemma_split_nonempty(a0, '+');
        lemma_split_nonempty(b0, '+');
        let pa = split_on(a0, '+');
        let pb = split_on(b0, '+');
        assert(ascii_lower(a[a.len() - 1]) == ascii_lower(b[a.len() - 1]));
        assert((a.last() == '+') == (b.last() == '+'));
        let ra = split_on(a, '+');
        let rb = split_on(b, '+');
        assert forall|i: int| 0 <= i < ra.len() implies same_but_case(#[trigger] ra[i], rb[i]) by {
            if a.last() == '+' {
                if i < pa.len() {
                    assert(ra[i] == pa[i]);
                    assert(rb[i] == pb[i]);
                    assert(same_but_case(pa[i], pb[i]));
                } else {
                    assert(ra[i] =~= Seq::<char>::empty());
                    assert(rb[i] =~= Seq::<char>::empty());
                }
            } else {
                if i < pa.len() - 1 {
                    assert(ra[i] == pa[i]);
                    assert(rb[i] == pb[i]);
                    assert(same_but_case(pa[i], pb[i]));
                } else {
                    assert(same_but_case(pa[pa.len() - 1], pb[pa.len() - 1]));
                    lemma_same_but_case(pa.last(), pb.last());
                    let ga = pa.last().push(a.last());
                    let gb = pb.last().push(b.last());
                    assert(ra[i] == ga);
                    assert(rb[i] == gb);
                    assert forall|j: int| 0 <= j < ga.len() implies ascii_lower(#[trigger] ga[j])
                        == ascii_lower(gb[j]) by {
                        if j < pa.last().len() {
                            assert(ga[j] == pa.last()[j]);
                            assert(gb[j] == pb.last()[j]);
                        }
                    }
                    lemma_same_but_case(ga, gb);
                }
            }
        }
    } else {
        assert(b.len() == 0);
    }
}

/// Trimming ignores case.
proof fn lemma_trim_ignores_case(a: Seq<char>, b: Seq<char>)
    requires
        same_but_case(a, b),
    ensures
        same_but_case(trim(a), trim(b)),
{
    lemma_trim_start_ignores_case(a, b);
    lemma_trim_end_ignores_case(trim_start(a), trim_start(b));
}

proof fn lemma_trim_start_ignores_case(a: Seq<char>, b: Seq<char>)
    requires
        same_but_case(a, b),
    ensures
        same_but_case(trim_start(a), trim_start(b)),
    decreases a.len(),
{
    lemma_same_but_case(a, b);
    if a.len() > 0 {
        assert(ascii_lower(a[0]) == ascii_lower(b[0]));
        assert(is_whitespace(a[0]) == is_whitespace(b[0]));
        if is_whitespace(a[0]) {
            let a0 = a.drop_first();
            let b0 = b.drop_first();
            assert forall|i: int| 0 <= i < a0.len() implies ascii_lower(#[trigger] a0[i])
                == ascii_lower(b0[i]) by {
                assert(a0[i] == a[i + 1]);
                assert(b0[i] == b[i + 1]);
            }
            lemma_same_but_case(a0, b0);
            lemma_trim_start_ignores_case(a0, b0);
        }
    }
}

proof fn lemma_trim_end_ignores_case(a: Seq<char>, b: Seq<char>)
    requires
        same_but_case(a, b),
    ensures
        same_but_case(trim_end(a), trim_end(b)),
    decreases a.len(),
{
    lemma_same_but_case(a, b);
    if a.len() > 0 {
        assert(ascii_lower(a[a.len() - 1]) == ascii_lower(b[a.len() - 1]));
        assert(is_whitespace(a.last()) == is_whitespace(b.last()));
        if is_whitespace(a.last()) {
            let a0 = a.drop_last();
            let b0 = b.drop_last();
            assert forall|i: int| 0 <= i < a0.len() implies ascii_lower(#[trigger] a0[i])
                == ascii_lower(b0[i]) by {
                assert(a0[i] == a[i]);
                assert(b0[i] == b[i]);
            }
            lemma_same_but_case(a0, b0);
            lemma_trim_end_ignores_case(a0, b0);
        }
    }
}

/// Whether two readings of tokens agree: the same reading, or faults alike.
pub open spec fn agree<T>(a: Result<T, ParseFault>, b: Result<T, ParseFault>) -> bool {
    match (a, b) {
        (Ok(x), Ok(y)) => x == y,
        (Err(f), Err(g)) => f.alike(g),
        _ => false,
    }
}

/// Reading one token ignores its case.
proof fn lemma_read_token_ignores_case(so_far: Reading, a: Seq<char>, b: Seq<char>)
    requires
        same_but_case(a, b),
    ensures
        agree(read_token(so_far, a), read_token(so_far, b)),
{
    lemma_trim_ignores_case(a, b);
    let ta = trim(a);
    let tb = trim(b);
    lemma_same_but_case(ta, tb);
    if ta.len() == 1 {
        assert(ascii_lower(ta[0]) == ascii_lower(tb[0]));
    }
}

/// Reading tokens ignores their case.
proof fn lemma_read_tokens_ignore_case(a: Seq<Seq<char>>, b: Seq<Seq<char>>)
    requires
        a.len() == b.len(),
        forall|i: int| 0 <= i < a.len() ==> same_but_case(#[trigger] a[i], b[i]),
    ensures
        agree(read_tokens(a), read_tokens(b)),
    decreases a.len(),
{
    if a.len() > 0 {
        let a0 = a.drop_last();
        let b0 = b.drop_last();
        assert forall|i: int| 0 <= i < a0.len() implies same_but_case(#[trigger] a0[i], b0[i]) by {
            assert(a0[i] == a[i]);
            assert(b0[i] == b[i]);
        }
        lemma_read_tokens_ignore_case(a0, b0);
        assert(same_but_case(a[a.len() - 1], b[a.len() - 1]));
        if let Ok(so_far) = read_tokens(a0) {
            lemma_read_token_ignores_case(so_far, a.last(), b.last());
        }
    }
}

/// Parsing ignores the case of ASCII letters, in modifier names and in the key.
///
/// Two hotkey strings that differ only in case specify the same hotkey, or
/// both fail, with faults of one kind.
pub proof fn lemma_parse_ignores_case(a: Seq<char>, b: Seq<char>)
    requires
        same_but_case(a, b),
    ensures
        agree(parsed_hotkey(a), parsed_hotkey(b)),
{
    lemma_same_but_case(a, b);
    lemma_split_ignores_case(a, b);
    lemma_read_tokens_ignore_case(split_on(a, '+'), split_on(b, '+'));
}

} // verus!
