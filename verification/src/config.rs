//! Settings: environment variables, stored files and defaults.
//!
//! An environment variable is passed as an option: `None` where it is not set. The content of a
//! stored file is passed as an option too: `None` where there is no such file or it cannot be read
//! as text.
use vstd::prelude::*;
use vstd::utf8::{decode_utf8, encode_utf8};

use crate::text::{law_trimmed, parse_u16, trim, trimmed, u16_of};

verus! {

/// The value of a setting, or its default.
pub open spec fn setting(var: Option<Seq<char>>, default: Seq<char>) -> Seq<char> {
    match var {
        Some(v) => v,
        None => default,
    }
}

/// The value of a setting, or its default.
fn setting_or(var: Option<String>, default: &str) -> (v: String)
    ensures
        v@ == setting(var.deep_view(), default@),
{
    match var {
        Some(v) => v,
        None => default.to_owned(),
    }
}

/// The port to listen on: the one that is set, or 3005 where none is.
pub open spec fn port_in_use(var: Option<Seq<char>>) -> u16 {
    match var {
        Some(v) => match u16_of(v) {
            Some(p) => p,
            None => 3005,
        },
        None => 3005,
    }
}

/// Where Gitea's API is.
pub open spec fn api_base_in_use(var: Option<Seq<char>>) -> Seq<char> {
    setting(var, "https://ci.moicen.com/api/v1"@)
}

/// Where files are stored.
pub open spec fn data_dir_in_use(var: Option<Seq<char>>) -> Seq<char> {
    setting(var, "./data"@)
}

/// The port to listen on, from `UPCTL_PORT`: 3005 where that is no port.
pub fn port(var: Option<&str>) -> (p: u16)
    ensures
        p == port_in_use(var.deep_view()),
{
    match var {
        Some(v) => match parse_u16(v) {
            Some(p) => p,
            None => 3005,
        },
        None => 3005,
    }
}

/// Where Gitea's API is, from `GITEA_API_BASE`.
pub fn gitea_api_base(var: Option<String>) -> (base: String)
    ensures
        base@ == api_base_in_use(var.deep_view()),
{
    setting_or(var, "https://ci.moicen.com/api/v1")
}

/// How to authenticate with Gitea, from `GITEA_AUTH_HEADER`, which must be set.
pub fn gitea_auth_header(var: Option<String>) -> (header: String)
    requires
        var is Some,
    ensures
        Some(header) == var,
{
    var.unwrap()
}

/// The bytes of a key.
pub open spec fn key_bytes(key: Seq<char>) -> Seq<u8> {
    encode_utf8(key)
}

/// The key of the tokens, from `JWT_KEY`, which must be set.
pub fn jwt_key(var: Option<String>) -> (key: Vec<u8>)
    requires
        var is Some,
    ensures
        key@ == key_bytes(var->0@),
{
    var.unwrap().as_str().as_bytes_vec()
}

/// Where files are stored, from `DATA_DIR`.
pub fn data_dir(var: Option<String>) -> (dir: String)
    ensures
        dir@ == data_dir_in_use(var.deep_view()),
{
    setting_or(var, "./data")
}

/// The prompt prefix in use: the stored one where it is not blank, else that of
/// `AGENT_PROMPT_PREFIX`, else the default. A stored prefix is trimmed and ends with an empty line.
pub open spec fn prefix_in_use(stored: Option<Seq<char>>, var: Option<Seq<char>>) -> Seq<char> {
    match stored {
        Some(content) => if trimmed(content).len() > 0 {
            trimmed(content) + "\n\n"@
        } else {
            setting(var, "不要进入plan mode，直接干活\n\n"@)
        },
        None => setting(var, "不要进入plan mode，直接干活\n\n"@),
    }
}

/// The memory directory in use: the stored one where it is not blank, else that of
/// `AGENT_MEMORY_DIR`, else none. A stored directory is trimmed.
pub open spec fn memory_dir_in_use(stored: Option<Seq<char>>, var: Option<Seq<char>>) -> Seq<
    char,
> {
    match stored {
        Some(content) => if trimmed(content).len() > 0 {
            trimmed(content)
        } else {
            setting(var, Seq::empty())
        },
        None => setting(var, Seq::empty()),
    }
}

/// The file in the data directory that holds the prompt prefix.
pub open spec fn prefix_file() -> Seq<char> {
    "prompt_prefix.txt"@
}

/// The file in the data directory that holds the memory directory.
pub open spec fn memory_file() -> Seq<char> {
    "memory_dir.txt"@
}

/// The file in the data directory that `claude_prompt_prefix` is to be given.
pub fn prompt_prefix_file() -> (name: &'static str)
    ensures
        name@ == prefix_file(),
{
    "prompt_prefix.txt"
}

/// The file in the data directory that `agent_memory_dir` is to be given.
pub fn memory_dir_file() -> (name: &'static str)
    ensures
        name@ == memory_file(),
{
    "memory_dir.txt"
}

/// How to store a text, and what is in use then. The file named `file` in the data directory is
/// written with `content`; where `remove` holds it is removed afterwards, as far as that works.
#[derive(Debug)]
pub struct StoreText {
    pub file: &'static str,
    pub content: String,
    pub remove: bool,
    pub in_use: String,
}

/// What a `StoreText` says.
pub struct StoreTextView {
    pub file: Seq<char>,
    pub content: Seq<char>,
    pub remove: bool,
    pub in_use: Seq<char>,
}

impl View for StoreText {
    type V = StoreTextView;

    open spec fn view(&self) -> StoreTextView {
        StoreTextView {
            file: self.file@,
            content: self.content@,
            remove: self.remove,
            in_use: self.in_use@,
        }
    }
}

/// How to store a prompt prefix: trimmed, or not at all where it is blank.
pub open spec fn store_prefix(text: Seq<char>, var: Option<Seq<char>>) -> StoreTextView {
    StoreTextView {
        file: prefix_file(),
        content: trimmed(text),
        remove: trimmed(text).len() == 0,
        in_use: prefix_in_use(Some(text), var),
    }
}

/// How to store a memory directory: trimmed, or not at all where it is blank.
pub open spec fn store_memory_dir(text: Seq<char>, var: Option<Seq<char>>) -> StoreTextView {
    StoreTextView {
        file: memory_file(),
        content: trimmed(text),
        remove: trimmed(text).len() == 0,
        in_use: memory_dir_in_use(Some(text), var),
    }
}

/// The files of the data directory, by name, after a `StoreText`. A removal need not work.
pub open spec fn files_after(
    files: Map<Seq<char>, Seq<char>>,
    store: StoreTextView,
    removed: bool,
) -> Map<Seq<char>, Seq<char>> {
    if store.remove && removed {
        files.remove(store.file)
    } else {
        files.insert(store.file, store.content)
    }
}

/// What a file holds, where it is there.
pub open spec fn stored_in(files: Map<Seq<char>, Seq<char>>, name: Seq<char>) -> Option<Seq<char>> {
    if files.contains_key(name) {
        Some(files[name])
    } else {
        None
    }
}

/// The prompt prefix in use.
pub fn claude_prompt_prefix(stored: Option<&str>, var: Option<String>) -> (prefix: String)
    ensures
        prefix@ == prefix_in_use(stored.deep_view(), var.deep_view()),
{
    if let Some(content) = stored {
        let t = trim(content);
        if !t.is_empty() {
            return t.to_owned().concat("\n\n");
        }
    }
    setting_or(var, "不要进入plan mode，直接干活\n\n")
}

/// Stores a prompt prefix; a blank one clears what is stored.
pub fn set_claude_prompt_prefix(text: &str, var: Option<String>) -> (store: StoreText)
    ensures
        store@ == store_prefix(text@, var.deep_view()),
{
    let t = trim(text);
    if t.is_empty() {
        StoreText {
            file: prompt_prefix_file(),
            content: t.to_owned(),
            remove: true,
            in_use: setting_or(var, "不要进入plan mode，直接干活\n\n"),
        }
    } else {
        StoreText {
            file: prompt_prefix_file(),
            content: t.to_owned(),
            remove: false,
            in_use: t.to_owned().concat("\n\n"),
        }
    }
}

/// The memory directory in use; empty where there is none.
pub fn agent_memory_dir(stored: Option<&str>, var: Option<String>) -> (dir: String)
    ensures
        dir@ == memory_dir_in_use(stored.deep_view(), var.deep_view()),
{
    if let Some(content) = stored {
        let t = trim(content);
        if !t.is_empty() {
            return t.to_owned();
        }
    }
    match var {
        Some(v) => v,
        None => String::new(),
    }
}

/// Stores a memory directory; a blank one clears what is stored.
pub fn set_agent_memory_dir(text: &str, var: Option<String>) -> (store: StoreText)
    ensures
        store@ == store_memory_dir(text@, var.deep_view()),
{
    let t = trim(text);
    if t.is_empty() {
        StoreText {
            file: memory_dir_file(),
            content: t.to_owned(),
            remove: true,
            in_use: match var {
                Some(v) => v,
                None => String::new(),
            },
        }
    } else {
        StoreText {
            file: memory_dir_file(),
            content: t.to_owned(),
            remove: false,
            in_use: t.to_owned(),
        }
    }
}

/// The two settings are kept in different files.
proof fn lemma_files_differ()
    ensures
        prefix_file() != memory_file(),
{
    reveal_strlit("prompt_prefix.txt");
    reveal_strlit("memory_dir.txt");
    assert(prefix_file().len() != memory_file().len());
}

/// What `set_claude_prompt_prefix` says is in use is what `claude_prompt_prefix` then finds in use,
/// whether or not a cleared file could be removed. The memory directory stays as it was.
pub proof fn law_stored_prefix_is_in_use(
    files: Map<Seq<char>, Seq<char>>,
    text: Seq<char>,
    var: Option<Seq<char>>,
    removed: bool,
)
    ensures
        ({
            let store = store_prefix(text, var);
            let after = files_after(files, store, removed);
            &&& prefix_in_use(stored_in(after, prefix_file()), var) == store.in_use
            &&& stored_in(after, memory_file()) == stored_in(files, memory_file())
        }),
{
    law_trimmed(text);
    lemma_files_differ();
}

/// What `set_agent_memory_dir` says is in use is what `agent_memory_dir` then finds in use, whether
/// or not a cleared file could be removed. The prompt prefix stays as it was.
pub proof fn law_stored_memory_dir_is_in_use(
    files: Map<Seq<char>, Seq<char>>,
    text: Seq<char>,
    var: Option<Seq<char>>,
    removed: bool,
)
    ensures
        ({
            let store = store_memory_dir(text, var);
            let after = files_after(files, store, removed);
            &&& memory_dir_in_use(stored_in(after, memory_file()), var) == store.in_use
            &&& stored_in(after, prefix_file()) == stored_in(files, prefix_file())
        }),
{
    law_trimmed(text);
    lemma_files_differ();
}

/// Every port that is written in decimal is used; without one it is 3005. Addresses and directories
/// are used as they are set, whatever they are, and have their defaults only where they are not set.
pub proof fn law_settings_are_used_as_set(port: u16, v: Seq<char>)
    ensures
        port_in_use(Some(crate::text::decimal(port as int))) == port,
        u16_of(v) matches Some(p) ==> port_in_use(Some(v)) == p,
        u16_of(v) is None ==> port_in_use(Some(v)) == 3005,
        port_in_use(None) == 3005,
        api_base_in_use(Some(v)) == v,
        api_base_in_use(None) == "https://ci.moicen.com/api/v1"@,
        data_dir_in_use(Some(v)) == v,
        data_dir_in_use(None) == "./data"@,
{
    crate::text::law_decimal_is_read_back(port);
}

/// What is stored comes first, whole but for white space at its ends, whatever the variable says; a
/// blank file is as good as none, and then the variable counts as it stands, and then the default.
pub proof fn law_what_is_stored_comes_first(
    lead: Seq<char>,
    middle: Seq<char>,
    tail: Seq<char>,
    var: Option<Seq<char>>,
    v: Seq<char>,
)
    requires
        crate::text::blank(lead),
        crate::text::blank(tail),
        middle.len() > 0,
        !crate::text::white_space(middle[0]) && !crate::text::white_space(middle.last()),
    ensures
        prefix_in_use(Some(lead + middle + tail), var) == middle + "\n\n"@,
        memory_dir_in_use(Some(lead + middle + tail), var) == middle,
        prefix_in_use(Some(lead), var) == prefix_in_use(None, var),
        memory_dir_in_use(Some(lead), var) == memory_dir_in_use(None, var),
        prefix_in_use(None, Some(v)) == v,
        memory_dir_in_use(None, Some(v)) == v,
        prefix_in_use(None, None) == "不要进入plan mode，直接干活\n\n"@,
        memory_dir_in_use(None, None) == Seq::<char>::empty(),
{
    crate::text::law_trimming_keeps_the_middle(lead, middle, tail);
    crate::text::law_trimming_keeps_the_middle(lead, Seq::empty(), Seq::empty());
    assert(lead + Seq::<char>::empty() + Seq::<char>::empty() =~= lead);
}

/// What is written to the file of a setting: the text without white space at its ends; a blank one is
/// removed again. Each setting has its own file.
pub proof fn law_settings_are_stored_trimmed(
    lead: Seq<char>,
    middle: Seq<char>,
    tail: Seq<char>,
    var: Option<Seq<char>>,
)
    requires
        crate::text::blank(lead),
        crate::text::blank(tail),
        middle.len() > 0 ==> !crate::text::white_space(middle[0]) && !crate::text::white_space(
            middle.last(),
        ),
    ensures
        ({
            let text = lead + middle + tail;
            let prefix = store_prefix(text, var);
            let dir = store_memory_dir(text, var);
            &&& prefix.file == "prompt_prefix.txt"@ && dir.file == "memory_dir.txt"@
            &&& prefix.content == middle && dir.content == middle
            &&& prefix.remove <==> middle.len() == 0
            &&& dir.remove <==> middle.len() == 0
            &&& prefix.in_use == prefix_in_use(Some(text), var)
            &&& dir.in_use == memory_dir_in_use(Some(text), var)
        }),
        prefix_file() == "prompt_prefix.txt"@,
        memory_file() == "memory_dir.txt"@,
{
    crate::text::law_trimming_keeps_the_middle(lead, middle, tail);
}

/// What is said of how a text is stored is what is held.
pub proof fn law_stores_say_what_they_hold(store: StoreText)
    ensures
        store@.file == store.file@ && store@.content == store.content@ && store@.remove
            == store.remove && store@.in_use == store.in_use@,
{
}

/// The bytes of a key are the whole key: they encode it, so that different keys have different bytes.
pub proof fn law_keys_are_used_whole(a: Seq<char>, b: Seq<char>)
    ensures
        decode_utf8(key_bytes(a)) == a,
        key_bytes(a) == key_bytes(b) ==> a == b,
{
    vstd::utf8::encode_utf8_decode_utf8(a);
    vstd::utf8::encode_utf8_decode_utf8(b);
}

} // verus!
