use vstd::prelude::*;
use vstd::string::{StrSliceExecFns, StringExecFns};

verus! {

broadcast use vstd::string::group_string_axioms;

/// What `str::trim` leaves of a text: leading and trailing whitespace removed.
pub uninterp spec fn trim_of(s: Seq<char>) -> Seq<char>;

/// What `str::to_lowercase` makes of a text.
pub uninterp spec fn lower_of(s: Seq<char>) -> Seq<char>;

/// The whitespace-separated tokens of a text, as `str::split_whitespace`
/// yields them.
pub uninterp spec fn tokens_of(s: Seq<char>) -> Seq<Seq<char>>;

/// Relies on `str::trim`; the result depends on the characters alone.
#[verifier::external_body]
pub(crate) fn trimmed(s: &str) -> (r: String)
    ensures
        r@ == trim_of(s@),
{
    s.trim().to_string()
}

/// Relies on `str::to_lowercase`; the result depends on the characters alone.
#[verifier::external_body]
fn lowercase(s: &str) -> (r: String)
    ensures
        r@ == lower_of(s@),
{
    s.to_lowercase()
}

/// Relies on `str::split_whitespace`: its tokens, in order.
#[verifier::external_body]
fn whitespace_tokens(s: &str) -> (r: Vec<String>)
    ensures
        r@.map_values(|t: String| t@) == tokens_of(s@),
{
    s.split_whitespace().map(|t| t.to_string()).collect()
}

/// The characters of `s`, in order.
pub fn chars_of(s: &str) -> (r: Vec<char>)
    ensures
        r@ == s@,
{
    let mut out: Vec<char> = Vec::new();
    for c in it: s.chars()
        invariant
            out@ == it.seq().take(it.index() as int),
            it.seq() == s@,
    {
        out.push(c);
    }
    out
}

/// An incoming transcript as the activator compares it: trimmed, lower case.
pub fn normalize(input: &str) -> (r: String)
    ensures
        r@ == lower_of(trim_of(input@)),
{
    let t = trimmed(input);
    lowercase(t.as_str())
}

/// `text` opens with the activation word `word`: it is the word, or the
/// word followed by a space.
pub open spec fn activates(text: Seq<char>, word: Seq<char>) -> bool {
    text == word || (word.len() < text.len() && text.take(word.len() as int) == word
        && text[word.len() as int] == ' ')
}

/// Index `i` holds the first of `words` that `text` opens with.
pub open spec fn first_activation(text: Seq<char>, words: Seq<String>, i: int) -> bool {
    &&& 0 <= i < words.len()
    &&& activates(text, words[i]@)
    &&& forall|k: int| 0 <= k < i ==> !activates(text, #[trigger] words[k]@)
}

fn opens_with(text: &Vec<char>, word: &Vec<char>) -> (r: bool)
    ensures
        r == activates(text@, word@),
{
    if word.len() > text.len() {
        assert(text@ != word@);
        return false;
    }
    let mut i: usize = 0;
    while i < word.len()
        invariant
            word@.len() <= text@.len(),
            i <= word@.len(),
            forall|k: int| 0 <= k < i ==> text@[k] == word@[k],
        decreases word@.len() - i,
    {
        if text[i] != word[i] {
            assert(text@.take(word@.len() as int)[i as int] != word@[i as int]);
            assert(text@ != word@);
            return false;
        }
        i = i + 1;
    }
    assert(text@.take(word@.len() as int) =~= word@);
    if word.len() == text.len() {
        assert(text@ =~= word@);
        true
    } else {
        text[word.len()] == ' '
    }
}

/// Finds the first of `words` that `text` opens with, as the activator
/// matches them.
pub fn find_activation_word<'a>(text: &str, words: &'a Vec<String>) -> (r: Option<&'a str>)
    ensures
        r is None <==> forall|i: int| 0 <= i < words@.len() ==> !activates(text@, #[trigger] words@[i]@),
        r matches Some(w) ==> exists|i: int| first_activation(text@, words@, i) && w@ == words@[i]@,
{
    let t = chars_of(text);
    let mut i: usize = 0;
    while i < words.len()
        invariant
            t@ == text@,
            i <= words@.len(),
            forall|k: int| 0 <= k < i ==> !activates(text@, #[trigger] words@[k]@),
        decreases words@.len() - i,
    {
        let w = chars_of(words[i].as_str());
        if opens_with(&t, &w) {
            assert(first_activation(text@, words@, i as int));
            return Some(words[i].as_str());
        }
        i = i + 1;
    }
    None
}

/// Some token of `text` is one of `stop_words`.
pub open spec fn has_stop_word(text: Seq<char>, stop_words: Seq<String>) -> bool {
    exists|a: int, b: int|
        0 <= a < tokens_of(text).len() && 0 <= b < stop_words.len() && #[trigger] tokens_of(text)[a]
            == #[trigger] stop_words[b]@
}

/// Whether any whitespace-separated token of `text` is a stop word.
pub fn contains_stop_word(text: &str, stop_words: &Vec<String>) -> (r: bool)
    ensures
        r == has_stop_word(text@, stop_words@),
{
    let tokens = whitespace_tokens(text);
    let ghost toks = tokens_of(text@);
    assert(tokens@.len() == toks.len());
    let mut a: usize = 0;
    while a < tokens.len()
        invariant
            tokens@.map_values(|t: String| t@) == toks,
            toks == tokens_of(text@),
            a <= tokens@.len(),
            forall|x: int, y: int|
                0 <= x < a && 0 <= y < stop_words@.len() ==> #[trigger] toks[x]
                    != #[trigger] stop_words@[y]@,
        decreases tokens@.len() - a,
    {
        let mut b: usize = 0;
        while b < stop_words.len()
            invariant
                tokens@.map_values(|t: String| t@) == toks,
                toks == tokens_of(text@),
                a < tokens@.len(),
                b <= stop_words@.len(),
                forall|x: int, y: int|
                    0 <= x < a && 0 <= y < stop_words@.len() ==> #[trigger] toks[x]
                        != #[trigger] stop_words@[y]@,
                forall|y: int| 0 <= y < b ==> toks[a as int] != #[trigger] stop_words@[y]@,
            decreases stop_words@.len() - b,
        {
            assert(toks[a as int] == tokens@[a as int]@);
            if tokens[a] == stop_words[b] {
                assert(toks[a as int] == stop_words@[b as int]@);
                return true;
            }
            b = b + 1;
        }
        a = a + 1;
    }
    false
}

/// What the activator does with one incoming transcript.
#[derive(Debug)]
pub enum Activation {
    /// Empty, no activation word, or nothing after it.
    Ignored,
    /// The command holds a stop word: nothing is forwarded.
    Stopped,
    /// Forward this command, the text after the activation word.
    Forward(String),
}

impl Activation {
    /// The status the activator reports for this outcome.
    pub fn status(&self) -> (r: &'static str)
        ensures
            self is Ignored ==> r@ == seq!['i', 'g', 'n', 'o', 'r', 'e', 'd'],
            self is Stopped ==> r@ == seq!['s', 't', 'o', 'p', 'p', 'e', 'd'],
            self is Forward ==> r@ == seq!['a', 'c', 'c', 'e', 'p', 't', 'e', 'd'],
    {
        match self {
            Activation::Ignored => {
                proof {
                    reveal_strlit("ignored");
                }
                "ignored"
            },
            Activation::Stopped => {
                proof {
                    reveal_strlit("stopped");
                }
                "stopped"
            },
            Activation::Forward(_) => {
                proof {
                    reveal_strlit("accepted");
                }
                "accepted"
            },
        }
    }

    /// The command to forward, if any.
    pub fn command(&self) -> (r: Option<String>)
        ensures
            self matches Activation::Forward(c) ==> r == Some(*c),
            !(self is Forward) ==> r is None,
    {
        match self {
            Activation::Forward(c) => Some(c.clone()),
            _ => None,
        }
    }
}

/// The command that follows activation word `word` in the normalized text.
pub open spec fn command_after(text: Seq<char>, word: Seq<char>) -> Seq<char> {
    trim_of(text.subrange(word.len() as int, text.len() as int))
}

/// Decides what to do with a transcript: normalize it, find the first
/// activation word it opens with, take the trimmed rest as the command, and
/// stop on a stop word.
pub fn decide(input: &str, activation_words: &Vec<String>, stop_words: &Vec<String>) -> (r:
    Activation)
    ensures
        lower_of(trim_of(input@)).len() == 0 ==> r is Ignored,
        (forall|i: int|
            0 <= i < activation_words@.len() ==> !activates(
                lower_of(trim_of(input@)),
                #[trigger] activation_words@[i]@,
            )) ==> r is Ignored,
        forall|i: int|
            #[trigger] first_activation(lower_of(trim_of(input@)), activation_words@, i)
                && lower_of(trim_of(input@)).len() > 0 ==> {
                let command = command_after(lower_of(trim_of(input@)), activation_words@[i]@);
                &&& command.len() == 0 ==> r is Ignored
                &&& command.len() > 0 && has_stop_word(command, stop_words@) ==> r is Stopped
                &&& command.len() > 0 && !has_stop_word(command, stop_words@) ==> (r matches Activation::Forward(c) && c@ == command)
            },
{
    let text = normalize(input);
    if text.as_str().is_empty() {
        return Activation::Ignored;
    }
    let ghost t = text@;
    let chars = chars_of(text.as_str());
    let mut i: usize = 0;
    while i < activation_words.len()
        invariant
            t == text@,
            chars@ == t,
            t == lower_of(trim_of(input@)),
            t.len() > 0,
            i <= activation_words@.len(),
            forall|k: int| 0 <= k < i ==> !activates(t, #[trigger] activation_words@[k]@),
        decreases activation_words@.len() - i,
    {
        let word = chars_of(activation_words[i].as_str());
        if opens_with(&chars, &word) {
            assert(first_activation(t, activation_words@, i as int));
            proof {
                assert forall|j: int| #[trigger] first_activation(t, activation_words@, j) implies j == i by {
                    if j < i {
                        assert(!activates(t, activation_words@[j]@));
                    } else if j > i {
                        assert(!activates(t, activation_words@[i as int]@));
                    }
                }
            }
            let rest = text.as_str().substring_char(word.len(), chars.len());
            let command = trimmed(rest);
            if command.as_str().is_empty() {
                return Activation::Ignored;
            }
            let stop = contains_stop_word(command.as_str(), stop_words);
            let r = if stop {
                Activation::Stopped
            } else {
                Activation::Forward(command)
            };
            proof {
                assert forall|j: int| #[trigger] first_activation(t, activation_words@, j) implies {
                    let c = command_after(t, activation_words@[j]@);
                    &&& c.len() == 0 ==> r is Ignored
                    &&& c.len() > 0 && has_stop_word(c, stop_words@) ==> r is Stopped
                    &&& c.len() > 0 && !has_stop_word(c, stop_words@) ==> (r matches Activation::Forward(x) && x@ == c)
                } by {
                    assert(j == i);
                }
            }
            return r;
        }
        i = i + 1;
    }
    Activation::Ignored
}

/// The comma-separated fields of a text, empty ones included, as
/// `str::split(',')` yields them.
pub open spec fn comma_fields(s: Seq<char>) -> Seq<Seq<char>>
    decreases s.len(),
{
    if s.len() == 0 {
        seq![Seq::empty()]
    } else if s.last() == ',' {
        comma_fields(s.drop_last()).push(Seq::empty())
    } else {
        let f = comma_fields(s.drop_last());
        f.update(f.len() - 1, f.last().push(s.last()))
    }
}

/// Relies on `str::split` with a `char` pattern: the fields between commas, in order.
#[verifier::external_body]
fn split_commas(s: &str) -> (r: Vec<String>)
    ensures
        r@.map_values(|t: String| t@) == comma_fields(s@),
{
    s.split(',').map(|t| t.to_string()).collect()
}

/// The words of a comma-separated list: each field trimmed and lower-cased,
/// empty ones left out.
pub open spec fn word_list(fields: Seq<Seq<char>>) -> Seq<Seq<char>>
    decreases fields.len(),
{
    if fields.len() == 0 {
        Seq::empty()
    } else {
        let w = lower_of(trim_of(fields.last()));
        if w.len() > 0 {
            word_list(fields.drop_last()).push(w)
        } else {
            word_list(fields.drop_last())
        }
    }
}

/// Reads a comma-separated word list such as `"va, Assistant"`.
pub fn parse_word_list(raw: &str) -> (r: Vec<String>)
    ensures
        r@.map_values(|t: String| t@) == word_list(comma_fields(raw@)),
{
    let fields = split_commas(raw);
    let ghost fs = comma_fields(raw@);
    let mut out: Vec<String> = Vec::new();
    let mut i: usize = 0;
    while i < fields.len()
        invariant
            fields@.map_values(|t: String| t@) == fs,
            i <= fields@.len(),
            out@.map_values(|t: String| t@) == word_list(fs.take(i as int)),
        decreases fields@.len() - i,
    {
        let w = normalize(fields[i].as_str());
        assert(fs.take(i + 1 as int).drop_last() == fs.take(i as int));
        assert(fs.take(i + 1 as int).last() == fields@[i as int]@);
        if !w.as_str().is_empty() {
            let ghost before = out@;
            out.push(w);
            assert(out@.map_values(|t: String| t@) =~= before.map_values(|t: String| t@).push(w@));
        }
        i = i + 1;
    }
    assert(fs.take(fields@.len() as int) == fs);
    out
}

/// Address the activator listens on when none is configured.
pub const DEFAULT_BIND_ADDR: &'static str = "127.0.0.1:8090";

/// A setting of the activator service.
#[derive(Clone, Copy, Debug, PartialEq, Eq, Structural)]
pub enum Setting {
    ActivationWords,
    StopWords,
    WebhookUrl,
}

/// Why the activator's settings were refused.
#[derive(Clone, Copy, Debug, PartialEq, Eq, Structural)]
pub enum ConfigError {
    /// A required setting is absent.
    Missing(Setting),
    /// A word list holds no word, or the webhook URL is blank.
    Empty(Setting),
}

/// The activator's validated settings.
#[derive(Debug)]
pub struct ActivatorConfig {
    pub activation_words: Vec<String>,
    pub stop_words: Vec<String>,
    pub bind_addr: String,
    pub webhook_url: String,
}

/// The words of a required list setting, refused when absent or empty.
fn word_setting(raw: Option<String>, which: Setting) -> (r: Result<Vec<String>, ConfigError>)
    ensures
        raw is None ==> r == Err::<Vec<String>, ConfigError>(ConfigError::Missing(which)),
        raw matches Some(s) ==> {
            let ws = word_list(comma_fields(s@));
            &&& ws.len() == 0 ==> r == Err::<Vec<String>, ConfigError>(ConfigError::Empty(which))
            &&& ws.len() > 0 ==> (r matches Ok(v) && v@.map_values(|t: String| t@) == ws)
        },
{
    match raw {
        None => Err(ConfigError::Missing(which)),
        Some(s) => {
            let words = parse_word_list(s.as_str());
            if words.len() == 0 {
                Err(ConfigError::Empty(which))
            } else {
                Ok(words)
            }
        },
    }
}

impl ActivatorConfig {
    /// Validates the activator's settings as read from its environment: both
    /// word lists are required and must hold a word, the webhook URL is
    /// required and is kept trimmed and must not be blank, and the bind
    /// address has a default.
    pub fn from_values(
        activation_words: Option<String>,
        stop_words: Option<String>,
        bind_addr: Option<String>,
        webhook_url: Option<String>,
    ) -> (r: Result<ActivatorConfig, ConfigError>)
        ensures
            match activation_words {
                None => r == Err::<ActivatorConfig, ConfigError>(
                    ConfigError::Missing(Setting::ActivationWords),
                ),
                Some(a) => if word_list(comma_fields(a@)).len() == 0 {
                    r == Err::<ActivatorConfig, ConfigError>(
                        ConfigError::Empty(Setting::ActivationWords),
                    )
                } else {
                    match stop_words {
                        None => r == Err::<ActivatorConfig, ConfigError>(
                            ConfigError::Missing(Setting::StopWords),
                        ),
                        Some(st) => if word_list(comma_fields(st@)).len() == 0 {
                            r == Err::<ActivatorConfig, ConfigError>(
                                ConfigError::Empty(Setting::StopWords),
                            )
                        } else {
                            match webhook_url {
                                None => r == Err::<ActivatorConfig, ConfigError>(
                                    ConfigError::Missing(Setting::WebhookUrl),
                                ),
                                Some(u) => if trim_of(u@).len() == 0 {
                                    r == Err::<ActivatorConfig, ConfigError>(
                                        ConfigError::Empty(Setting::WebhookUrl),
                                    )
                                } else {
                                    &&& r is Ok
                                    &&& r->Ok_0.activation_words@.map_values(|t: String| t@)
                                        == word_list(comma_fields(a@))
                                    &&& r->Ok_0.stop_words@.map_values(|t: String| t@)
                                        == word_list(comma_fields(st@))
                                    &&& r->Ok_0.webhook_url@ == trim_of(u@)
                                    &&& match bind_addr {
                                        Some(b) => r->Ok_0.bind_addr == b,
                                        None => r->Ok_0.bind_addr@ == DEFAULT_BIND_ADDR@,
                                    }
                                },
                            }
                        },
                    }
                },
            },
    {
        let activation_words = word_setting(activation_words, Setting::ActivationWords)?;
        let stop_words = word_setting(stop_words, Setting::StopWords)?;
        let webhook_url = match webhook_url {
            None => return Err(ConfigError::Missing(Setting::WebhookUrl)),
            Some(u) => trimmed(u.as_str()),
        };
        if webhook_url.as_str().is_empty() {
            return Err(ConfigError::Empty(Setting::WebhookUrl));
        }
        let bind_addr = match bind_addr {
            Some(b) => b,
            None => String::from_str(DEFAULT_BIND_ADDR),
        };
        Ok(ActivatorConfig { activation_words, stop_words, bind_addr, webhook_url })
    }
}

} // verus!
