use vstd::prelude::*;
use crate::text::{decimal, decimal_of, extension, extension_of, name_text, replace, replace_all, trim_end_matches, trim_suffixes};

verus! {

/// What `sanitize` makes of a text.
pub uninterp spec fn sanitized(s: Seq<char>) -> Seq<char>;

/// Relies on `sanitize_html::sanitize_str` with the crate's default rules, which remove
/// all markup; a text that it cannot process becomes empty. The result depends on the
/// text alone.
#[verifier::external_body]
pub fn sanitize(s: String) -> (r: String)
    ensures
        r@ == sanitized(s@),
{
    match sanitize_html::sanitize_str(&sanitize_html::rules::predefined::DEFAULT, &s) {
        Ok(data) => data,
        Err(_) => String::new(),
    }
}

/// The view of a list of name/value pairs.
pub open spec fn pairs_view(v: Seq<(String, String)>) -> Seq<(Seq<char>, Seq<char>)> {
    v.map_values(|p: (String, String)| (p.0@, p.1@))
}

/// A message that can be localized: its key in the language files, the text used when no
/// file has it, and the values of its placeholders.
pub trait LocKey: Sized {
    /// The key of the message.
    spec fn key_text(&self) -> Seq<char>;

    /// The text used when no language file has the key.
    spec fn default_text(&self) -> Seq<char>;

    /// The placeholders' names and values, in the order in which they are filled in.
    spec fn arg_list(&self) -> Option<Seq<(Seq<char>, Seq<char>)>>;

    fn key(&self) -> (r: String)
        ensures
            r@ == self.key_text(),
    ;

    fn default_message(&self) -> (r: String)
        ensures
            r@ == self.default_text(),
    ;

    fn args(self) -> (r: Option<Vec<(String, String)>>)
        ensures
            match r {
                Some(v) => self.arg_list() == Some(pairs_view(v@)),
                None => self.arg_list() is None,
            },
    ;
}

/// The messages of the relay itself.
#[derive(Clone, Debug)]
pub enum CommonMessages {
    VoiceMessagesNotSupported,
    PollsNotSupported,
    GamesNotSupported,
    InfoHeader {
        id: i64,
        first_name: Option<String>,
        last_name: Option<String>,
        lang: Option<String>,
    },
    Welcome,
    Faq,
    UserReply,
}

impl LocKey for CommonMessages {
    open spec fn key_text(&self) -> Seq<char> {
        match self {
            CommonMessages::VoiceMessagesNotSupported => "common.voiceMessagesNotSupported"@,
            CommonMessages::PollsNotSupported => "common.pollsNotSupported"@,
            CommonMessages::GamesNotSupported => "common.gamesNotSupported"@,
            CommonMessages::InfoHeader { .. } => "common.infoHeader"@,
            CommonMessages::Welcome => "common.welcome"@,
            CommonMessages::Faq => "common.faq"@,
            CommonMessages::UserReply => "common.userReply"@,
        }
    }

    open spec fn default_text(&self) -> Seq<char> {
        match self {
            CommonMessages::VoiceMessagesNotSupported => "Voice messages not supported"@,
            CommonMessages::GamesNotSupported => "Games not supported"@,
            CommonMessages::PollsNotSupported => "Polls not supported"@,
            CommonMessages::InfoHeader { .. } => "<b><a href=\"tg://user?id={id}\">{first_name} {last_name}</a></b>\n<b>Language: </b> {lang}\n"@,
            CommonMessages::Welcome => "Welcome to support chat! Ask your questions here"@,
            CommonMessages::Faq => "To contact support, send your message, video or file. You will receive support answer in this chat"@,
            CommonMessages::UserReply => "Thank you for contacting us. We will answer as soon as possible."@,
        }
    }

    open spec fn arg_list(&self) -> Option<Seq<(Seq<char>, Seq<char>)>> {
        match self {
            CommonMessages::InfoHeader { id, first_name, last_name, lang } => Some(seq![
                ("id"@, decimal_of(*id as int)),
                ("first_name"@, sanitized(name_text(*first_name))),
                ("last_name"@, sanitized(name_text(*last_name))),
                ("lang"@, sanitized(name_text(*lang))),
            ]),
            _ => None,
        }
    }

    fn key(&self) -> (r: String) {
        match self {
            CommonMessages::VoiceMessagesNotSupported => "common.voiceMessagesNotSupported".to_owned(),
            CommonMessages::PollsNotSupported => "common.pollsNotSupported".to_owned(),
            CommonMessages::GamesNotSupported => "common.gamesNotSupported".to_owned(),
            CommonMessages::InfoHeader { .. } => "common.infoHeader".to_owned(),
            CommonMessages::Welcome => "common.welcome".to_owned(),
            CommonMessages::Faq => "common.faq".to_owned(),
            CommonMessages::UserReply => "common.userReply".to_owned(),
        }
    }

    fn default_message(&self) -> (r: String) {
        match self {
            CommonMessages::VoiceMessagesNotSupported => "Voice messages not supported".to_owned(),
            CommonMessages::GamesNotSupported => "Games not supported".to_owned(),
            CommonMessages::PollsNotSupported => "Polls not supported".to_owned(),
            CommonMessages::InfoHeader { .. } => "<b><a href=\"tg://user?id={id}\">{first_name} {last_name}</a></b>\n<b>Language: </b> {lang}\n".to_owned(),
            CommonMessages::Welcome => "Welcome to support chat! Ask your questions here".to_owned(),
            CommonMessages::Faq => "To contact support, send your message, video or file. You will receive support answer in this chat".to_owned(),
            CommonMessages::UserReply => "Thank you for contacting us. We will answer as soon as possible.".to_owned(),
        }
    }

    fn args(self) -> (r: Option<Vec<(String, String)>>) {
        match self {
            CommonMessages::InfoHeader { id, first_name, last_name, lang } => {
                let mut v: Vec<(String, String)> = Vec::new();
                v.push(("id".to_owned(), decimal(id)));
                v.push(("first_name".to_owned(), sanitize(text_or_empty(first_name))));
                v.push(("last_name".to_owned(), sanitize(text_or_empty(last_name))));
                v.push(("lang".to_owned(), sanitize(text_or_empty(lang))));
                assert(pairs_view(v@) =~= seq![
                    ("id"@, decimal_of(id as int)),
                    ("first_name"@, sanitized(name_text(first_name))),
                    ("last_name"@, sanitized(name_text(last_name))),
                    ("lang"@, sanitized(name_text(lang))),
                ]);
                Some(v)
            },
            _ => None,
        }
    }
}

/// The text of an optional name, or an empty text.
pub fn text_or_empty(o: Option<String>) -> (r: String)
    ensures
        r@ == name_text(o),
{
    match o {
        Some(s) => s,
        None => String::new(),
    }
}

/// The language of a language file named `name`: the name without its "json" extension
/// (taken off as often as it ends the name, and the dots before it likewise); none when
/// the extension is not "json".
pub open spec fn language_of(name: Seq<char>) -> Option<Seq<char>> {
    if extension_of(name) == Some("json"@) {
        Some(trim_suffixes(trim_suffixes(name, "json"@), "."@))
    } else {
        None
    }
}

/// The language of the language file named `file_name`; `None` when it is not a
/// ".json" file.
pub fn language_of_file(file_name: &str) -> (r: Option<String>)
    ensures
        match r {
            Some(l) => language_of(file_name@) == Some(l@),
            None => language_of(file_name@) is None,
        },
{
    proof {
        reveal_strlit("json");
        reveal_strlit(".");
    }
    let json = "json".to_owned();
    match extension(file_name) {
        Some(ext) => {
            if ext.eq(&json) {
                let stem = trim_end_matches(file_name, "json");
                Some(trim_end_matches(stem.as_str(), "."))
            } else {
                None
            }
        },
        None => None,
    }
}

/// Where the language files are and which language to fall back on.
#[derive(Clone, Debug, Default)]
pub struct LocalizationConfig {
    pub default_language: Option<String>,
    pub paths: Vec<String>,
}

/// One message of a language file.
#[derive(Clone, Debug)]
pub struct Entry {
    pub default_message: String,
    pub description: Option<String>,
}

/// Whether row `i` of `entries` is under `key`.
pub open spec fn entry_is(entries: Seq<(String, Entry)>, key: Seq<char>, i: int) -> bool {
    0 <= i < entries.len() && entries[i].0@ == key
}

/// The entry under `key`, if there is one.
pub open spec fn entry_for(entries: Seq<(String, Entry)>, key: Seq<char>) -> Option<Entry> {
    if exists|i: int| entry_is(entries, key, i) {
        Some(entries[choose|i: int| entry_is(entries, key, i)].1)
    } else {
        None
    }
}

/// The messages of one language, by key.
#[derive(Clone, Debug)]
pub struct FileContents {
    entries: Vec<(String, Entry)>,
}

impl FileContents {
    /// The entries, one per key.
    pub closed spec fn entries(&self) -> Seq<(String, Entry)> {
        self.entries@
    }

    /// Each key appears once.
    pub closed spec fn wf(&self) -> bool {
        forall|i: int, j: int|
            0 <= i < self.entries@.len() && 0 <= j < self.entries@.len() && i != j
                ==> self.entries@[i].0@ != self.entries@[j].0@
    }

    /// No messages.
    pub fn new() -> (r: FileContents)
        ensures
            r.wf(),
            r.entries().len() == 0,
    {
        FileContents { entries: Vec::new() }
    }

    /// Puts `entry` under `key`, in place of the entry that was under it.
    pub fn insert(&mut self, key: String, entry: Entry)
        requires
            old(self).wf(),
        ensures
            final(self).wf(),
            entry_for(final(self).entries(), key@) == Some(entry),
            forall|k: Seq<char>| k != key@ ==> entry_for(final(self).entries(), k) == entry_for(old(self).entries(), k),
    {
        let mut i: usize = 0;
        while i < self.entries.len()
            invariant
                i <= self.entries@.len(),
                *self == *old(self),
                self.wf(),
                forall|k: int| 0 <= k < i ==> self.entries@[k].0@ != key@,
            decreases self.entries@.len() - i,
        {
            if self.entries[i].0 == key {
                let ghost before = self.entries@;
                self.entries.set(i, (key, entry));
                proof {
                    let after = self.entries@;
                    assert(entry_is(after, key@, i as int));
                    assert forall|k: Seq<char>| k != key@ implies entry_for(after, k) == entry_for(before, k) by {
                        assert(forall|j: int| entry_is(after, k, j) <==> entry_is(before, k, j));
                        if exists|j: int| entry_is(before, k, j) {
                            let j = choose|j: int| entry_is(before, k, j);
                            assert(entry_is(after, k, j));
                        }
                    }
                }
                return;
            }
            i = i + 1;
        }
        let ghost before = self.entries@;
        self.entries.push((key, entry));
        proof {
            let after = self.entries@;
            assert(entry_is(after, key@, before.len() as int));
            assert forall|k: Seq<char>| k != key@ implies entry_for(after, k) == entry_for(before, k) by {
                assert(forall|j: int| entry_is(after, k, j) <==> entry_is(before, k, j));
                if exists|j: int| entry_is(before, k, j) {
                    let j = choose|j: int| entry_is(before, k, j);
                    assert(entry_is(after, k, j));
                }
            }
        }
    }

    /// The message text under `key`.
    pub fn get(&self, key: &String) -> (r: Option<String>)
        requires
            self.wf(),
        ensures
            r == match entry_for(self.entries(), key@) {
                Some(e) => Some(e.default_message),
                None => None::<String>,
            },
    {
        let mut i: usize = 0;
        while i < self.entries.len()
            invariant
                i <= self.entries@.len(),
                self.wf(),
                forall|k: int| 0 <= k < i ==> !entry_is(self.entries@, key@, k),
            decreases self.entries@.len() - i,
        {
            if self.entries[i].0.eq(key) {
                assert(entry_is(self.entries@, key@, i as int));
                return Some(self.entries[i].1.default_message.clone());
            }
            i = i + 1;
        }
        None
    }
}

/// Whether row `i` of `langs` is for language `lang`.
pub open spec fn lang_is(langs: Seq<(String, FileContents)>, lang: Seq<char>, i: int) -> bool {
    0 <= i < langs.len() && langs[i].0@ == lang
}

/// The messages of language `lang`, if the bundle has it.
pub open spec fn file_for(langs: Seq<(String, FileContents)>, lang: Seq<char>) -> Option<FileContents> {
    if exists|i: int| lang_is(langs, lang, i) {
        Some(langs[choose|i: int| lang_is(langs, lang, i)].1)
    } else {
        None
    }
}

/// `msg` with the placeholder `{name}` of each pair replaced by its value, pair by pair.
pub open spec fn fill_args(msg: Seq<char>, args: Seq<(Seq<char>, Seq<char>)>) -> Seq<char>
    decreases args.len(),
{
    if args.len() == 0 {
        msg
    } else {
        fill_args(replace_all(msg, "{"@ + args[0].0 + "}"@, args[0].1), args.drop_first())
    }
}

/// The messages of every language the relay speaks, and the language to fall back on.
pub struct LocalizationBundle {
    langs: Vec<(String, FileContents)>,
    default_lang: Option<String>,
}

impl LocalizationBundle {
    /// The languages with their messages, one row per language.
    pub closed spec fn langs(&self) -> Seq<(String, FileContents)> {
        self.langs@
    }

    /// The language to fall back on.
    pub closed spec fn fallback(&self) -> Option<Seq<char>> {
        match self.default_lang {
            Some(d) => Some(d@),
            None => None,
        }
    }

    /// Each language appears once, and each file has each key once.
    pub closed spec fn wf(&self) -> bool {
        &&& forall|i: int, j: int|
            0 <= i < self.langs@.len() && 0 <= j < self.langs@.len() && i != j
                ==> self.langs@[i].0@ != self.langs@[j].0@
        &&& forall|i: int| 0 <= i < self.langs@.len() ==> (#[trigger] self.langs@[i]).1.wf()
    }

    /// The file chosen for a message in language `lang`: that language's if the bundle has
    /// it, else the fallback language's, if any.
    pub open spec fn chosen_file(&self, lang: Option<Seq<char>>) -> Option<FileContents> {
        let first = match lang {
            Some(l) => file_for(self.langs(), l),
            None => None,
        };
        if first is Some {
            first
        } else {
            match self.fallback() {
                Some(d) => file_for(self.langs(), d),
                None => None,
            }
        }
    }

    /// The text of a message before its placeholders are filled in: the chosen file's
    /// entry under the key, or else the message's own default text.
    pub open spec fn template_of(&self, lang: Option<Seq<char>>, key: Seq<char>, default: Seq<char>) -> Seq<char> {
        match self.chosen_file(lang) {
            Some(f) => match entry_for(f.entries(), key) {
                Some(e) => e.default_message@,
                None => default,
            },
            None => default,
        }
    }

    /// No languages and no fallback.
    pub fn new() -> (r: LocalizationBundle)
        ensures
            r.wf(),
            r.langs().len() == 0,
            r.fallback() is None,
    {
        LocalizationBundle { langs: Vec::new(), default_lang: None }
    }

    /// Makes `lang` the language to fall back on.
    pub fn set_default_lang(&mut self, lang: String)
        requires
            old(self).wf(),
        ensures
            final(self).wf(),
            final(self).langs() == old(self).langs(),
            final(self).fallback() == Some(lang@),
    {
        self.default_lang = Some(lang);
    }

    /// The languages of the bundle, in the order in which they were added.
    pub fn languages(&self) -> (r: Vec<String>)
        ensures
            r@.len() == self.langs().len(),
            forall|i: int| 0 <= i < r@.len() ==> r@[i]@ == self.langs()[i].0@,
    {
        let mut out: Vec<String> = Vec::new();
        let mut i: usize = 0;
        while i < self.langs.len()
            invariant
                i <= self.langs@.len(),
                out@.len() == i,
                forall|k: int| 0 <= k < i ==> out@[k]@ == self.langs@[k].0@,
            decreases self.langs@.len() - i,
        {
            out.push(self.langs[i].0.clone());
            i = i + 1;
        }
        out
    }

    /// Puts the messages of `lang` in the bundle, in place of those it had for `lang`.
    pub fn add(&mut self, lang: String, contents: FileContents)
        requires
            old(self).wf(),
            contents.wf(),
        ensures
            final(self).wf(),
            final(self).fallback() == old(self).fallback(),
            file_for(final(self).langs(), lang@) == Some(contents),
            forall|l: Seq<char>| l != lang@ ==> file_for(final(self).langs(), l) == file_for(old(self).langs(), l),
    {
        let mut i: usize = 0;
        while i < self.langs.len()
            invariant
                i <= self.langs@.len(),
                *self == *old(self),
                self.wf(),
                contents.wf(),
                forall|k: int| 0 <= k < i ==> self.langs@[k].0@ != lang@,
            decreases self.langs@.len() - i,
        {
            if self.langs[i].0 == lang {
                let ghost before = self.langs@;
                self.langs.set(i, (lang, contents));
                proof {
                    let after = self.langs@;
                    assert(forall|j: int| 0 <= j < after.len() && j != i ==> after[j] == before[j]);
                    assert(after[i as int].1.wf());
                    assert(lang_is(after, lang@, i as int));
                    assert forall|l: Seq<char>| l != lang@ implies file_for(after, l) == file_for(before, l) by {
                        assert(forall|j: int| lang_is(after, l, j) <==> lang_is(before, l, j));
                        if exists|j: int| lang_is(before, l, j) {
                            let j = choose|j: int| lang_is(before, l, j);
                            assert(lang_is(after, l, j));
                        }
                    }
                }
                return;
            }
            i = i + 1;
        }
        let ghost before = self.langs@;
        self.langs.push((lang, contents));
        proof {
            let after = self.langs@;
            assert(forall|j: int| 0 <= j < before.len() ==> after[j] == before[j]);
            assert(after[before.len() as int].1.wf());
            assert(lang_is(after, lang@, before.len() as int));
            assert forall|l: Seq<char>| l != lang@ implies file_for(after, l) == file_for(before, l) by {
                assert(forall|j: int| lang_is(after, l, j) <==> lang_is(before, l, j));
                if exists|j: int| lang_is(before, l, j) {
                    let j = choose|j: int| lang_is(before, l, j);
                    assert(lang_is(after, l, j));
                }
            }
        }
    }

    fn find(&self, lang: &String) -> (r: Option<usize>)
        requires
            self.wf(),
        ensures
            match r {
                Some(i) => i < self.langs().len() && file_for(self.langs(), lang@) == Some(self.langs()[i as int].1),
                None => file_for(self.langs(), lang@) is None,
            },
    {
        let mut i: usize = 0;
        while i < self.langs.len()
            invariant
                i <= self.langs@.len(),
                self.wf(),
                forall|k: int| 0 <= k < i ==> !lang_is(self.langs@, lang@, k),
            decreases self.langs@.len() - i,
        {
            if self.langs[i].0.eq(lang) {
                assert(lang_is(self.langs@, lang@, i as int));
                return Some(i);
            }
            i = i + 1;
        }
        None
    }

    /// The text of `key` in language `lang`: the entry of that language, or else of the
    /// fallback language, or else the key's default text, with its placeholders filled in.
    pub fn localize<K: LocKey>(&self, lang: Option<String>, key: K) -> (r: String)
        requires
            self.wf(),
        ensures
            r@ == fill_args(
                self.template_of(opt_text(lang), key.key_text(), key.default_text()),
                match key.arg_list() {
                    Some(a) => a,
                    None => Seq::empty(),
                },
            ),
    {
        let k = key.key();
        let mut chosen: Option<usize> = match &lang {
            Some(l) => self.find(l),
            None => None,
        };
        if chosen.is_none() {
            chosen = match &self.default_lang {
                Some(d) => self.find(d),
                None => None,
            };
        }
        let found: Option<String> = match chosen {
            Some(i) => {
                proof {
                    assert(self.langs@[i as int].1.wf());
                }
                self.langs[i].1.get(&k)
            },
            None => None,
        };
        let mut msg = match found {
            Some(m) => m,
            None => key.default_message(),
        };
        let ghost template = msg@;
        let args = key.args();
        match args {
            Some(a) => {
                let ghost pv = pairs_view(a@);
                assert(pv.subrange(0, pv.len() as int) =~= pv);
                let mut i: usize = 0;
                while i < a.len()
                    invariant
                        i <= a@.len(),
                        pv == pairs_view(a@),
                        fill_args(template, pv) == fill_args(msg@, pv.subrange(i as int, pv.len() as int)),
                    decreases a@.len() - i,
                {
                    let mut pat = String::new();
                    pat.append("{");
                    pat.append(a[i].0.as_str());
                    pat.append("}");
                    proof {
                        reveal_strlit("{");
                        assert(pat@ =~= "{"@ + pv[i as int].0 + "}"@);
                        let rest = pv.subrange(i as int, pv.len() as int);
                        assert(rest.drop_first() =~= pv.subrange(i + 1, pv.len() as int));
                    }
                    msg = replace(msg.as_str(), pat.as_str(), a[i].1.as_str());
                    i = i + 1;
                }
                proof {
                    assert(pv.subrange(pv.len() as int, pv.len() as int) =~= Seq::<(Seq<char>, Seq<char>)>::empty());
                }
            },
            None => {},
        }
        msg
    }
}

/// The view of an optional text.
pub open spec fn opt_text(o: Option<String>) -> Option<Seq<char>> {
    match o {
        Some(s) => Some(s@),
        None => None,
    }
}

} // verus!
