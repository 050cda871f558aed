use vstd::prelude::*;
use crate::text::str_chars;
use crate::the_world::index_specifier::IndexSpecifier;

verus! {

/// A command of the game, as a player types it.
#[derive(Clone, PartialEq, Eq, Debug, Hash)]
pub enum Command {
    State,
    Move(usize),
    Equip(usize, usize),
    SwapEquipment(usize, usize),
    RerollModifier(usize, usize, Vec<IndexSpecifier>),
    ExpandPlaces,
    ExpandElements,
    ExpandMaxElement,
    ExpandMinElement,
    ExpandMaxSimultaneousElement,
    ExpandMinSimultaneousElement,
    ExpandEquipmentSlots,
    ReduceDifficulty,
    AddModifier(usize, Vec<IndexSpecifier>),
    Help,
    ReorderInventory,
    SaveTheWorld(String, Option<String>),
    LoadTheWorld(String, Option<String>),
}

/// The mathematical content of a command.
pub ghost enum CommandSpec {
    State,
    Move(usize),
    Equip(usize, usize),
    SwapEquipment(usize, usize),
    RerollModifier(usize, usize, Seq<IndexSpecifier>),
    ExpandPlaces,
    ExpandElements,
    ExpandMaxElement,
    ExpandMinElement,
    ExpandMaxSimultaneousElement,
    ExpandMinSimultaneousElement,
    ExpandEquipmentSlots,
    ReduceDifficulty,
    AddModifier(usize, Seq<IndexSpecifier>),
    Help,
    ReorderInventory,
    SaveTheWorld(Seq<char>, Option<Seq<char>>),
    LoadTheWorld(Seq<char>, Option<Seq<char>>),
}

/// The characters of an optional string.
pub open spec fn optional_text(o: Option<String>) -> Option<Seq<char>> {
    match o {
        Some(s) => Some(s@),
        None => None,
    }
}

impl DeepView for Command {
    type V = CommandSpec;

    open spec fn deep_view(&self) -> CommandSpec {
        match self {
            Command::State => CommandSpec::State,
            Command::Move(a) => CommandSpec::Move(*a),
            Command::Equip(a, b) => CommandSpec::Equip(*a, *b),
            Command::SwapEquipment(a, b) => CommandSpec::SwapEquipment(*a, *b),
            Command::RerollModifier(a, b, v) => CommandSpec::RerollModifier(*a, *b, v@),
            Command::ExpandPlaces => CommandSpec::ExpandPlaces,
            Command::ExpandElements => CommandSpec::ExpandElements,
            Command::ExpandMaxElement => CommandSpec::ExpandMaxElement,
            Command::ExpandMinElement => CommandSpec::ExpandMinElement,
            Command::ExpandMaxSimultaneousElement => CommandSpec::ExpandMaxSimultaneousElement,
            Command::ExpandMinSimultaneousElement => CommandSpec::ExpandMinSimultaneousElement,
            Command::ExpandEquipmentSlots => CommandSpec::ExpandEquipmentSlots,
            Command::ReduceDifficulty => CommandSpec::ReduceDifficulty,
            Command::AddModifier(a, v) => CommandSpec::AddModifier(*a, v@),
            Command::Help => CommandSpec::Help,
            Command::ReorderInventory => CommandSpec::ReorderInventory,
            Command::SaveTheWorld(n, p) => CommandSpec::SaveTheWorld(n@, optional_text(*p)),
            Command::LoadTheWorld(n, p) => CommandSpec::LoadTheWorld(n@, optional_text(*p)),
        }
    }
}

/// One command of each kind, in the order the help lists them.
pub open spec fn all_commands() -> Seq<CommandSpec> {
    seq![
        CommandSpec::State,
        CommandSpec::Move(0),
        CommandSpec::Equip(0, 0),
        CommandSpec::SwapEquipment(0, 0),
        CommandSpec::RerollModifier(0, 0, Seq::empty()),
        CommandSpec::ExpandPlaces,
        CommandSpec::ExpandElements,
        CommandSpec::ExpandMaxElement,
        CommandSpec::ExpandMinElement,
        CommandSpec::ExpandMaxSimultaneousElement,
        CommandSpec::ExpandMinSimultaneousElement,
        CommandSpec::ExpandEquipmentSlots,
        CommandSpec::ReduceDifficulty,
        CommandSpec::AddModifier(0, Seq::empty()),
        CommandSpec::Help,
        CommandSpec::ReorderInventory,
        CommandSpec::SaveTheWorld("String"@, None),
        CommandSpec::LoadTheWorld("String"@, None),
    ]
}

/// The pieces of `s` between occurrences of `sep`; an empty text is one empty piece.
pub open spec fn split_words(s: Seq<char>, sep: char) -> Seq<Seq<char>>
    decreases s.len(),
{
    if s.len() == 0 {
        seq![Seq::empty()]
    } else {
        let w = split_words(s.drop_last(), sep);
        if s.last() == sep {
            w.push(Seq::empty())
        } else {
            w.update(w.len() - 1, w.last().push(s.last()))
        }
    }
}

/// Every character of `s` is a decimal digit.
pub open spec fn all_digits(s: Seq<char>) -> bool {
    forall|i: int| 0 <= i < s.len() ==> '0' <= #[trigger] s[i] <= '9'
}

/// The number that the decimal digits of `s` denote.
pub open spec fn digits_value(s: Seq<char>) -> nat
    decreases s.len(),
{
    if s.len() == 0 {
        0
    } else {
        digits_value(s.drop_last()) * 10 + (s.last() as nat - '0' as nat) as nat
    }
}

/// What `str::parse::<usize>` gives for `s`: an optional `+` followed by at
/// least one decimal digit, denoting a number that fits in `usize`.
pub open spec fn parsed_usize(s: Seq<char>) -> Option<usize> {
    let digits = if s.len() > 0 && s[0] == '+' { s.drop_first() } else { s };
    if digits.len() > 0 && all_digits(digits) && digits_value(digits) <= usize::MAX {
        Some(digits_value(digits) as usize)
    } else {
        None
    }
}

/// One piece of a list of sacrifices: `+n` or `-n` relative to `relative_to`
/// (staying within `usize`), or an absolute index.
pub open spec fn parsed_specifier(s: Seq<char>, relative_to: usize) -> Option<IndexSpecifier> {
    if s.len() > 0 && s[0] == '+' {
        match parsed_usize(s.drop_first()) {
            Some(n) => if relative_to + n <= usize::MAX {
                Some(IndexSpecifier::RelativePositive(n))
            } else {
                None
            },
            None => None,
        }
    } else if s.len() > 0 && s[0] == '-' {
        match parsed_usize(s.drop_first()) {
            Some(n) => if n <= relative_to {
                Some(IndexSpecifier::RelativeNegative(n))
            } else {
                None
            },
            None => None,
        }
    } else {
        match parsed_usize(s) {
            Some(n) => Some(IndexSpecifier::Absolute(n)),
            None => None,
        }
    }
}

/// Every piece parsed as a specifier, or `None` if one is not one.
pub open spec fn parsed_specifiers(pieces: Seq<Seq<char>>, relative_to: usize) -> Option<Seq<IndexSpecifier>>
    decreases pieces.len(),
{
    if pieces.len() == 0 {
        Some(Seq::empty())
    } else {
        match parsed_specifiers(pieces.drop_last(), relative_to) {
            Some(done) => match parsed_specifier(pieces.last(), relative_to) {
                Some(s) => Some(done.push(s)),
                None => None,
            },
            None => None,
        }
    }
}

/// A comma-separated list of sacrifices relative to `relative_to`.
pub open spec fn parsed_index_list(s: Seq<char>, relative_to: usize) -> Option<Seq<IndexSpecifier>> {
    parsed_specifiers(split_words(s, ','), relative_to)
}

/// What `format!("{:?}", words)` gives for a list of words.
pub uninterp spec fn debug_text_of_words(words: Seq<Seq<char>>) -> Seq<char>;

/// The words of a command line.
pub open spec fn command_words(s: Seq<char>) -> Seq<Seq<char>> {
    split_words(s, ' ')
}

/// The message for a move command that cannot be parsed.
pub open spec fn move_error_text(w: Seq<Seq<char>>) -> Seq<char> {
    "Trouble parsing move command, it needs the index of the place. Got "@ + debug_text_of_words(w)
}

/// The message for an AddModifier command that cannot be parsed.
pub open spec fn add_modifier_error_text(w: Seq<Seq<char>>) -> Seq<char> {
    "Trouble parsing AddModifier command, it needs the index of the item and a list comma seperated list of items to sacrifice. Got "@
        + debug_text_of_words(w)
}

/// The message for an Equip command that cannot be parsed.
pub open spec fn equip_error_text(w: Seq<Seq<char>>) -> Seq<char> {
    "Trouble parsing Equip command, it needs index of inventory and index of equipment slot. Got "@
        + debug_text_of_words(w)
}

/// The message for a SwapEquipment command that cannot be parsed.
pub open spec fn swap_error_text(w: Seq<Seq<char>>) -> Seq<char> {
    "Trouble parsing SwapEquipment command, it needs index of inventory and index of equipment slot. Got "@
        + debug_text_of_words(w)
}

/// The message for a RerollModifier command that cannot be parsed.
pub open spec fn reroll_error_text(w: Seq<Seq<char>>) -> Seq<char> {
    "Trouble parsing RerollModifier command, it needs index of inventory, index of modifier and a list comma seperated list of items to sacrifice. Got "@
        + debug_text_of_words(w)
}

/// The message for a SaveTheWorld command that cannot be parsed.
pub open spec fn save_error_text(w: Seq<Seq<char>>) -> Seq<char> {
    "Trouble parsing SaveTheWorld command, it needs a save game name and optionally a path to the savegame (remember to end the path with /). Default location is ./save_games/. Got "@
        + debug_text_of_words(w)
}

/// The message for a LoadTheWorld command that cannot be parsed.
pub open spec fn load_error_text(w: Seq<Seq<char>>) -> Seq<char> {
    "Trouble parsing LoadTheWorld command, it needs a save game name and optionally a path to the savegame (remember to end the path with /). Default location is ./save_games/. Got "@
        + debug_text_of_words(w)
}

/// An AddModifier command whose second word is an index and that has no third
/// word: such a line is outside what parsing accepts.
pub open spec fn add_modifier_without_list(s: Seq<char>) -> bool {
    let w = command_words(s);
    w[0] == "AddModifier"@ && w.len() == 2 && parsed_usize(w[1]) is Some
}

/// The command a line denotes, or the message why it denotes none. The first
/// word names the command; the words after it are its arguments.
pub open spec fn parse_command(s: Seq<char>) -> Result<CommandSpec, Seq<char>> {
    let w = command_words(s);
    let head = w[0];
    if head == "State"@ {
        Ok(CommandSpec::State)
    } else if head == "ExpandPlaces"@ {
        Ok(CommandSpec::ExpandPlaces)
    } else if head == "ExpandElements"@ {
        Ok(CommandSpec::ExpandElements)
    } else if head == "ExpandMaxElement"@ {
        Ok(CommandSpec::ExpandMaxElement)
    } else if head == "ExpandMinElement"@ {
        Ok(CommandSpec::ExpandMinElement)
    } else if head == "ExpandEquipmentSlots"@ {
        Ok(CommandSpec::ExpandEquipmentSlots)
    } else if head == "ReduceDifficulty"@ {
        Ok(CommandSpec::ReduceDifficulty)
    } else if head == "ExpandMaxSimultaneousElement"@ {
        Ok(CommandSpec::ExpandMaxSimultaneousElement)
    } else if head == "ExpandMinSimultaneousElement"@ {
        Ok(CommandSpec::ExpandMinSimultaneousElement)
    } else if head == "Help"@ {
        Ok(CommandSpec::Help)
    } else if head == "ReorderInventory"@ {
        Ok(CommandSpec::ReorderInventory)
    } else if head == "Move"@ {
        if w.len() >= 2 && parsed_usize(w[1]) is Some {
            Ok(CommandSpec::Move(parsed_usize(w[1])->0))
        } else {
            Err(move_error_text(w))
        }
    } else if head == "AddModifier"@ {
        if w.len() >= 3 && parsed_usize(w[1]) is Some && parsed_index_list(w[2], parsed_usize(w[1])->0) is Some {
            Ok(CommandSpec::AddModifier(parsed_usize(w[1])->0, parsed_index_list(w[2], parsed_usize(w[1])->0)->0))
        } else {
            Err(add_modifier_error_text(w))
        }
    } else if head == "Equip"@ {
        if w.len() >= 3 && parsed_usize(w[1]) is Some && parsed_usize(w[2]) is Some {
            Ok(CommandSpec::Equip(parsed_usize(w[1])->0, parsed_usize(w[2])->0))
        } else {
            Err(equip_error_text(w))
        }
    } else if head == "SwapEquipment"@ {
        if w.len() >= 3 && parsed_usize(w[1]) is Some && parsed_usize(w[2]) is Some {
            Ok(CommandSpec::SwapEquipment(parsed_usize(w[1])->0, parsed_usize(w[2])->0))
        } else {
            Err(swap_error_text(w))
        }
    } else if head == "RerollModifier"@ {
        if w.len() >= 4 && parsed_usize(w[1]) is Some && parsed_usize(w[2]) is Some && parsed_index_list(
            w[3],
            parsed_usize(w[1])->0,
        ) is Some {
            Ok(
                CommandSpec::RerollModifier(
                    parsed_usize(w[1])->0,
                    parsed_usize(w[2])->0,
                    parsed_index_list(w[3], parsed_usize(w[1])->0)->0,
                ),
            )
        } else {
            Err(reroll_error_text(w))
        }
    } else if head == "SaveTheWorld"@ {
        if w.len() < 2 {
            Err(save_error_text(w))
        } else if w.len() < 3 {
            Ok(CommandSpec::SaveTheWorld(w[1], None))
        } else {
            Ok(CommandSpec::SaveTheWorld(w[1], Some(w[2])))
        }
    } else if head == "LoadTheWorld"@ {
        if w.len() < 2 {
            Err(load_error_text(w))
        } else if w.len() < 3 {
            Ok(CommandSpec::LoadTheWorld(w[1], None))
        } else {
            Ok(CommandSpec::LoadTheWorld(w[1], Some(w[2])))
        }
    } else {
        Err("Command not known. Got "@ + debug_text_of_words(w))
    }
}

/// Formats `words` with the standard `Debug` implementation of a vector of
/// strings (each word collected into a `String` first); the result is taken to
/// be `debug_text_of_words` of the words, a function of them alone. How each
/// character is escaped is not stated.
#[verifier::external_body]
fn debug_words(words: &Vec<Vec<char>>) -> (r: String)
    ensures
        r@ == debug_text_of_words(words.deep_view()),
{
    let strings: Vec<String> = words.iter().map(|w| w.iter().collect::<String>()).collect();
    format!("{:?}", strings)
}

/// `FromIterator<char>` for `String` (std): the string made of `chars`, in order.
#[verifier::external_body]
fn string_from_chars(chars: &Vec<char>) -> (r: String)
    ensures
        r@ == chars@,
{
    chars.iter().collect()
}

/// Whether the characters of `word` are those of `literal`.
fn word_is(word: &Vec<char>, literal: &str) -> (r: bool)
    ensures
        r == (word@ == literal@),
{
    let n = literal.unicode_len();
    if word.len() != n {
        return false;
    }
    let mut i: usize = 0;
    while i < n
        invariant
            n == literal@.len(),
            word@.len() == n,
            i <= n,
            forall|k: int| 0 <= k < i ==> word@[k] == literal@[k],
        decreases n - i,
    {
        if word[i] != literal.get_char(i) {
            return false;
        }
        i = i + 1;
    }
    assert(word@ =~= literal@);
    true
}

/// Splits `chars` at every `sep`.
fn split_on(chars: &Vec<char>, sep: char) -> (r: Vec<Vec<char>>)
    ensures
        r.deep_view() == split_words(chars@, sep),
        r@.len() >= 1,
{
    let mut words: Vec<Vec<char>> = Vec::new();
    let mut current: Vec<char> = Vec::new();
    let mut i: usize = 0;
    while i < chars.len()
        invariant
            i <= chars@.len(),
            words.deep_view().push(current@) == split_words(chars@.take(i as int), sep),
        decreases chars@.len() - i,
    {
        let c = chars[i];
        let ghost before_words = words.deep_view();
        let ghost before_current = current@;
        proof {
            assert(chars@.take(i + 1).drop_last() =~= chars@.take(i as int));
            assert(chars@.take(i + 1).last() == c);
        }
        if c == sep {
            let finished = current;
            let ghost finished_view = finished@;
            assert(finished.deep_view() =~= finished_view);
            words.push(finished);
            current = Vec::new();
            proof {
                assert(words.deep_view() =~= before_words.push(finished_view));
                assert(words.deep_view().push(current@) =~= before_words.push(before_current).push(Seq::empty()));
            }
        } else {
            current.push(c);
            proof {
                let w = before_words.push(before_current);
                assert(words.deep_view().push(current@) =~= w.update(w.len() - 1, w.last().push(c)));
            }
        }
        i = i + 1;
    }
    let ghost before_words = words.deep_view();
    let ghost last_view = current@;
    assert(current.deep_view() =~= last_view);
    words.push(current);
    assert(words.deep_view() =~= before_words.push(last_view));
    assert(chars@.take(chars@.len() as int) =~= chars@);
    words
}

/// A prefix of a digit string denotes at most what the whole string does.
proof fn lemma_digits_value_prefix(s: Seq<char>, k: int)
    requires
        0 <= k <= s.len(),
        all_digits(s),
    ensures
        digits_value(s.take(k)) <= digits_value(s),
    decreases s.len(),
{
    if k < s.len() {
        assert(s.drop_last().take(k) =~= s.take(k));
        lemma_digits_value_prefix(s.drop_last(), k);
    } else {
        assert(s.take(k) =~= s);
    }
}

/// Parses `word` as `str::parse::<usize>` does.
fn parse_usize(word: &Vec<char>) -> (r: Option<usize>)
    ensures
        r == parsed_usize(word@),
{
    let ghost s = word@;
    let start: usize = if word.len() > 0 && word[0] == '+' { 1 } else { 0 };
    let ghost digits = if s.len() > 0 && s[0] == '+' { s.drop_first() } else { s };
    assert(digits =~= s.subrange(start as int, s.len() as int));
    if start >= word.len() {
        return None;
    }
    let mut value: usize = 0;
    let mut i: usize = start;
    while i < word.len()
        invariant
            start <= i <= word@.len(),
            s == word@,
            digits == s.subrange(start as int, s.len() as int),
            digits == (if s.len() > 0 && s[0] == '+' { s.drop_first() } else { s }),
            all_digits(s.subrange(start as int, i as int)),
            value == digits_value(s.subrange(start as int, i as int)),
        decreases word@.len() - i,
    {
        let c = word[i];
        proof {
            assert(s.subrange(start as int, i + 1).drop_last() =~= s.subrange(start as int, i as int));
        }
        if !('0' <= c && c <= '9') {
            proof {
                assert(digits[i - start] == c);
            }
            return None;
        }
        let d = (c as u32 - '0' as u32) as usize;
        if value > (usize::MAX - d) / 10 {
            proof {
                let n = value as int;
                assert(n * 10 + d > usize::MAX) by (nonlinear_arith)
                    requires
                        n > (usize::MAX - d) / 10,
                        0 <= d <= 9,
                ;
                if all_digits(digits) {
                    assert(s.subrange(start as int, i + 1) =~= digits.take(i + 1 - start));
                    lemma_digits_value_prefix(digits, i + 1 - start);
                }
            }
            return None;
        }
        proof {
            let n = value as int;
            assert(n * 10 + d <= usize::MAX) by (nonlinear_arith)
                requires
                    n <= (usize::MAX - d) / 10,
                    0 <= d <= 9,
            ;
        }
        value = value * 10 + d;
        i = i + 1;
    }
    Some(value)
}

/// Parses one sacrifice relative to `relative_too`.
fn parse_specifier(piece: &Vec<char>, relative_too: usize) -> (r: Option<IndexSpecifier>)
    ensures
        r == parsed_specifier(piece@, relative_too),
{
    if piece.len() > 0 && (piece[0] == '+' || piece[0] == '-') {
        let mut rest: Vec<char> = Vec::new();
        let mut i: usize = 1;
        while i < piece.len()
            invariant
                1 <= i <= piece@.len(),
                rest@ == piece@.subrange(1, i as int),
            decreases piece@.len() - i,
        {
            rest.push(piece[i]);
            assert(rest@ =~= piece@.subrange(1, i + 1));
            i = i + 1;
        }
        assert(rest@ =~= piece@.drop_first());
        match parse_usize(&rest) {
            Some(n) => {
                if piece[0] == '+' {
                    if n <= usize::MAX - relative_too {
                        Some(IndexSpecifier::RelativePositive(n))
                    } else {
                        None
                    }
                } else if n <= relative_too {
                    Some(IndexSpecifier::RelativeNegative(n))
                } else {
                    None
                }
            },
            None => None,
        }
    } else {
        match parse_usize(piece) {
            Some(n) => Some(IndexSpecifier::Absolute(n)),
            None => None,
        }
    }
}

impl Command {
    /// One command of each kind, in the order the help lists them.
    pub fn get_all() -> (r: Vec<Command>)
        ensures
            r.deep_view() == all_commands(),
    {
        let r = vec![
            Command::State,
            Command::Move(0),
            Command::Equip(0, 0),
            Command::SwapEquipment(0, 0),
            Command::RerollModifier(0, 0, Vec::new()),
            Command::ExpandPlaces,
            Command::ExpandElements,
            Command::ExpandMaxElement,
            Command::ExpandMinElement,
            Command::ExpandMaxSimultaneousElement,
            Command::ExpandMinSimultaneousElement,
            Command::ExpandEquipmentSlots,
            Command::ReduceDifficulty,
            Command::AddModifier(0, Vec::new()),
            Command::Help,
            Command::ReorderInventory,
            Command::SaveTheWorld(String::from_str("String"), None),
            Command::LoadTheWorld(String::from_str("String"), None),
        ];
        proof {
            assert(r@[4].deep_view() == CommandSpec::RerollModifier(0, 0, Seq::empty()));
            assert(r@[13].deep_view() == CommandSpec::AddModifier(0, Seq::empty()));
        }
        assert(r.deep_view() =~= all_commands());
        r
    }

    /// Parses a comma-separated list of sacrifices relative to `relative_too`.
    fn parse_possible_relative_indexes(command_parts: &Vec<char>, relative_too: usize) -> (r: Option<
        Vec<IndexSpecifier>,
    >)
        ensures
            match parsed_index_list(command_parts@, relative_too) {
                Some(l) => r is Some && r->0@ == l,
                None => r is None,
            },
    {
        let pieces = split_on(command_parts, ',');
        let ghost p = pieces.deep_view();
        let mut result: Vec<IndexSpecifier> = Vec::new();
        let mut i: usize = 0;
        while i < pieces.len()
            invariant
                p == pieces.deep_view(),
                p == split_words(command_parts@, ','),
                i <= pieces@.len(),
                parsed_specifiers(p.take(i as int), relative_too) == Some(result@),
            decreases pieces@.len() - i,
        {
            proof {
                assert(p.take(i + 1).drop_last() =~= p.take(i as int));
                assert(p[i as int] == pieces@[i as int]@);
            }
            match parse_specifier(&pieces[i], relative_too) {
                Some(s) => {
                    result.push(s);
                },
                None => {
                    proof {
                        lemma_specifiers_fail_persist(p, relative_too, i + 1);
                    }
                    return None;
                },
            }
            i = i + 1;
        }
        assert(p.take(p.len() as int) =~= p);
        Some(result)
    }

    /// Parses a line typed by a player into a command, or the message of why it
    /// is not one (see `parse_command`). An `AddModifier` line with an index and
    /// no list of sacrifices is outside what it accepts.
    pub fn try_from(value: &String) -> (r: Result<Command, String>)
        requires
            !add_modifier_without_list(value@),
        ensures
            match parse_command(value@) {
                Ok(c) => r is Ok && r->Ok_0.deep_view() == c,
                Err(e) => r is Err && r->Err_0@ == e,
            },
    {
        let chars = str_chars(value.as_str());
        let words = split_on(&chars, ' ');
        let ghost w = words.deep_view();
        assert(w[0] == words@[0]@);
        let head = &words[0];
        if word_is(head, "State") {
            Ok(Command::State)
        } else if word_is(head, "ExpandPlaces") {
            Ok(Command::ExpandPlaces)
        } else if word_is(head, "ExpandElements") {
            Ok(Command::ExpandElements)
        } else if word_is(head, "ExpandMaxElement") {
            Ok(Command::ExpandMaxElement)
        } else if word_is(head, "ExpandMinElement") {
            Ok(Command::ExpandMinElement)
        } else if word_is(head, "ExpandEquipmentSlots") {
            Ok(Command::ExpandEquipmentSlots)
        } else if word_is(head, "ReduceDifficulty") {
            Ok(Command::ReduceDifficulty)
        } else if word_is(head, "ExpandMaxSimultaneousElement") {
            Ok(Command::ExpandMaxSimultaneousElement)
        } else if word_is(head, "ExpandMinSimultaneousElement") {
            Ok(Command::ExpandMinSimultaneousElement)
        } else if word_is(head, "Help") {
            Ok(Command::Help)
        } else if word_is(head, "ReorderInventory") {
            Ok(Command::ReorderInventory)
        } else if word_is(head, "Move") {
            Self::parse_move(&words)
        } else if word_is(head, "AddModifier") {
            Self::parse_add_modifier(&words)
        } else if word_is(head, "Equip") {
            Self::parse_equip(&words)
        } else if word_is(head, "SwapEquipment") {
            Self::parse_swap_equipment(&words)
        } else if word_is(head, "RerollModifier") {
            Self::parse_reroll_modifier(&words)
        } else if word_is(head, "SaveTheWorld") {
            Self::parse_save_the_world(&words)
        } else if word_is(head, "LoadTheWorld") {
            Self::parse_load_the_world(&words)
        } else {
            let mut m = String::from_str("Command not known. Got ");
            let d = debug_words(&words);
            m.append(d.as_str());
            Err(m)
        }
    }

    fn parse_move(command_parts: &Vec<Vec<char>>) -> (r: Result<Command, String>)
        requires
            command_parts@.len() >= 1,
        ensures
            ({
                let w = command_parts.deep_view();
                if w.len() >= 2 && parsed_usize(w[1]) is Some {
                    r == Ok::<Command, String>(Command::Move(parsed_usize(w[1])->0))
                } else {
                    r is Err && r->Err_0@ == move_error_text(w)
                }
            }),
    {
        if command_parts.len() >= 2 {
            assert(command_parts.deep_view()[1] == command_parts@[1]@);
            match parse_usize(&command_parts[1]) {
                Some(place_index) => {
                    return Ok(Command::Move(place_index));
                },
                None => {},
            }
        }
        let mut m = String::from_str("Trouble parsing move command, it needs the index of the place. Got ");
        let d = debug_words(command_parts);
        m.append(d.as_str());
        Err(m)
    }

    fn parse_add_modifier(command_parts: &Vec<Vec<char>>) -> (r: Result<Command, String>)
        requires
            command_parts@.len() >= 1,
            !(command_parts.deep_view().len() == 2 && parsed_usize(command_parts.deep_view()[1]) is Some),
        ensures
            ({
                let w = command_parts.deep_view();
                if w.len() >= 3 && parsed_usize(w[1]) is Some && parsed_index_list(w[2], parsed_usize(w[1])->0) is Some {
                    r is Ok && r->Ok_0.deep_view() == CommandSpec::AddModifier(
                        parsed_usize(w[1])->0,
                        parsed_index_list(w[2], parsed_usize(w[1])->0)->0,
                    )
                } else {
                    r is Err && r->Err_0@ == add_modifier_error_text(w)
                }
            }),
    {
        if command_parts.len() >= 2 {
            assert(command_parts.deep_view()[1] == command_parts@[1]@);
            match parse_usize(&command_parts[1]) {
                Some(inventory_position) => {
                    assert(command_parts.deep_view()[2] == command_parts@[2]@);
                    match Self::parse_possible_relative_indexes(&command_parts[2], inventory_position) {
                        Some(indexes) => {
                            return Ok(Command::AddModifier(inventory_position, indexes));
                        },
                        None => {},
                    }
                },
                None => {},
            }
        }
        let mut m = String::from_str(
            "Trouble parsing AddModifier command, it needs the index of the item and a list comma seperated list of items to sacrifice. Got ",
        );
        let d = debug_words(command_parts);
        m.append(d.as_str());
        Err(m)
    }

    fn parse_equip(command_parts: &Vec<Vec<char>>) -> (r: Result<Command, String>)
        ensures
            ({
                let w = command_parts.deep_view();
                if w.len() >= 3 && parsed_usize(w[1]) is Some && parsed_usize(w[2]) is Some {
                    r == Ok::<Command, String>(Command::Equip(parsed_usize(w[1])->0, parsed_usize(w[2])->0))
                } else {
                    r is Err && r->Err_0@ == equip_error_text(w)
                }
            }),
    {
        if command_parts.len() >= 3 {
            assert(command_parts.deep_view()[1] == command_parts@[1]@);
            assert(command_parts.deep_view()[2] == command_parts@[2]@);
            match (parse_usize(&command_parts[1]), parse_usize(&command_parts[2])) {
                (Some(inventory_position), Some(equipped_item_position)) => {
                    return Ok(Command::Equip(inventory_position, equipped_item_position));
                },
                _ => {},
            }
        }
        let mut m = String::from_str(
            "Trouble parsing Equip command, it needs index of inventory and index of equipment slot. Got ",
        );
        let d = debug_words(command_parts);
        m.append(d.as_str());
        Err(m)
    }

    fn parse_swap_equipment(command_parts: &Vec<Vec<char>>) -> (r: Result<Command, String>)
        ensures
            ({
                let w = command_parts.deep_view();
                if w.len() >= 3 && parsed_usize(w[1]) is Some && parsed_usize(w[2]) is Some {
                    r == Ok::<Command, String>(Command::SwapEquipment(parsed_usize(w[1])->0, parsed_usize(w[2])->0))
                } else {
                    r is Err && r->Err_0@ == swap_error_text(w)
                }
            }),
    {
        if command_parts.len() >= 3 {
            assert(command_parts.deep_view()[1] == command_parts@[1]@);
            assert(command_parts.deep_view()[2] == command_parts@[2]@);
            match (parse_usize(&command_parts[1]), parse_usize(&command_parts[2])) {
                (Some(position_1), Some(position_2)) => {
                    return Ok(Command::SwapEquipment(position_1, position_2));
                },
                _ => {},
            }
        }
        let mut m = String::from_str(
            "Trouble parsing SwapEquipment command, it needs index of inventory and index of equipment slot. Got ",
        );
        let d = debug_words(command_parts);
        m.append(d.as_str());
        Err(m)
    }

    fn parse_reroll_modifier(command_parts: &Vec<Vec<char>>) -> (r: Result<Command, String>)
        ensures
            ({
                let w = command_parts.deep_view();
                if w.len() >= 4 && parsed_usize(w[1]) is Some && parsed_usize(w[2]) is Some && parsed_index_list(
                    w[3],
                    parsed_usize(w[1])->0,
                ) is Some {
                    r is Ok && r->Ok_0.deep_view() == CommandSpec::RerollModifier(
                        parsed_usize(w[1])->0,
                        parsed_usize(w[2])->0,
                        parsed_index_list(w[3], parsed_usize(w[1])->0)->0,
                    )
                } else {
                    r is Err && r->Err_0@ == reroll_error_text(w)
                }
            }),
    {
        if command_parts.len() >= 4 {
            assert(command_parts.deep_view()[1] == command_parts@[1]@);
            assert(command_parts.deep_view()[2] == command_parts@[2]@);
            assert(command_parts.deep_view()[3] == command_parts@[3]@);
            match (parse_usize(&command_parts[1]), parse_usize(&command_parts[2])) {
                (Some(inventory_index), Some(modifier_index)) => {
                    match Self::parse_possible_relative_indexes(&command_parts[3], inventory_index) {
                        Some(indexes) => {
                            return Ok(Command::RerollModifier(inventory_index, modifier_index, indexes));
                        },
                        None => {},
                    }
                },
                _ => {},
            }
        }
        let mut m = String::from_str(
            "Trouble parsing RerollModifier command, it needs index of inventory, index of modifier and a list comma seperated list of items to sacrifice. Got ",
        );
        let d = debug_words(command_parts);
        m.append(d.as_str());
        Err(m)
    }

    fn parse_save_the_world(command_parts: &Vec<Vec<char>>) -> (r: Result<Command, String>)
        ensures
            ({
                let w = command_parts.deep_view();
                if w.len() < 2 {
                    r is Err && r->Err_0@ == save_error_text(w)
                } else if w.len() < 3 {
                    r is Ok && r->Ok_0.deep_view() == CommandSpec::SaveTheWorld(w[1], None)
                } else {
                    r is Ok && r->Ok_0.deep_view() == CommandSpec::SaveTheWorld(w[1], Some(w[2]))
                }
            }),
    {
        if command_parts.len() < 2 {
            let mut m = String::from_str(
                "Trouble parsing SaveTheWorld command, it needs a save game name and optionally a path to the savegame (remember to end the path with /). Default location is ./save_games/. Got ",
            );
            let d = debug_words(command_parts);
            m.append(d.as_str());
            return Err(m);
        }
        assert(command_parts.deep_view()[1] == command_parts@[1]@);
        let save_game_name = string_from_chars(&command_parts[1]);
        if command_parts.len() < 3 {
            Ok(Command::SaveTheWorld(save_game_name, None))
        } else {
            assert(command_parts.deep_view()[2] == command_parts@[2]@);
            Ok(Command::SaveTheWorld(save_game_name, Some(string_from_chars(&command_parts[2]))))
        }
    }

    fn parse_load_the_world(command_parts: &Vec<Vec<char>>) -> (r: Result<Command, String>)
        ensures
            ({
                let w = command_parts.deep_view();
                if w.len() < 2 {
                    r is Err && r->Err_0@ == load_error_text(w)
                } else if w.len() < 3 {
                    r is Ok && r->Ok_0.deep_view() == CommandSpec::LoadTheWorld(w[1], None)
                } else {
                    r is Ok && r->Ok_0.deep_view() == CommandSpec::LoadTheWorld(w[1], Some(w[2]))
                }
            }),
    {
        if command_parts.len() < 2 {
            let mut m = String::from_str(
                "Trouble parsing LoadTheWorld command, it needs a save game name and optionally a path to the savegame (remember to end the path with /). Default location is ./save_games/. Got ",
            );
            let d = debug_words(command_parts);
            m.append(d.as_str());
            return Err(m);
        }
        assert(command_parts.deep_view()[1] == command_parts@[1]@);
        let save_game_name = string_from_chars(&command_parts[1]);
        if command_parts.len() < 3 {
            Ok(Command::LoadTheWorld(save_game_name, None))
        } else {
            assert(command_parts.deep_view()[2] == command_parts@[2]@);
            Ok(Command::LoadTheWorld(save_game_name, Some(string_from_chars(&command_parts[2]))))
        }
    }
}

/// Once a prefix of the pieces fails to parse, the whole list fails.
proof fn lemma_specifiers_fail_persist(pieces: Seq<Seq<char>>, relative_to: usize, k: int)
    requires
        0 <= k <= pieces.len(),
        parsed_specifiers(pieces.take(k), relative_to) is None,
    ensures
        parsed_specifiers(pieces, relative_to) is None,
    decreases pieces.len() - k,
{
    if k < pieces.len() {
        assert(pieces.take(k + 1).drop_last() =~= pieces.take(k));
        lemma_specifiers_fail_persist(pieces, relative_to, k + 1);
    } else {
        assert(pieces.take(k) =~= pieces);
    }
}

} // verus!
