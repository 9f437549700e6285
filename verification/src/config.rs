//! Where the provider's key comes from. Files are read as data, never run by a shell, and a
//! key is never printed.
use crate::text::{blank, is_blank, owned_view, same, view_of, white};
use vstd::prelude::*;

verus! {

/// A text that is not printed: it can be read with `expose` only.
pub struct SecretString {
    text: String,
}

impl View for SecretString {
    type V = Seq<char>;

    closed spec fn view(&self) -> Seq<char> {
        self.text@
    }
}

impl SecretString {
    pub fn new(text: String) -> (r: SecretString)
        ensures
            r@ == text@,
    {
        SecretString { text }
    }

    pub fn expose(&self) -> (r: &str)
        ensures
            r@ == self@,
    {
        self.text.as_str()
    }
}

/// The provider's key and where it was found.
pub struct Credentials {
    pub key: SecretString,
    pub source: &'static str,
}

/// The name of the key in the environment and in a file.
pub open spec fn key_name() -> Seq<char> {
    "DEEPGRAM_API_KEY"@
}

/// The view of a name with its value.
pub open spec fn pair(p: (String, String)) -> (Seq<char>, Seq<char>) {
    (p.0@, p.1@)
}

/// Names with their values, as they were given.
pub open spec fn pairs(list: Seq<(String, String)>) -> Seq<(Seq<char>, Seq<char>)> {
    list.map_values(|p: (String, String)| pair(p))
}

/// The value that was given to a name last.
pub open spec fn value_of(list: Seq<(Seq<char>, Seq<char>)>, name: Seq<char>) -> Option<Seq<char>>
    decreases list.len(),
{
    if list.len() == 0 {
        None
    } else if list.last().0 == name {
        Some(list.last().1)
    } else {
        value_of(list.drop_last(), name)
    }
}

/// The value, unless it is blank.
pub open spec fn filled(value: Option<Seq<char>>) -> Option<Seq<char>> {
    match value {
        Some(v) => if blank(v) {
            None
        } else {
            Some(v)
        },
        None => None,
    }
}

/// The key and its source, or why there is none.
pub type Verdict = Result<(Seq<char>, Seq<char>), Seq<char>>;

/// What an answer says.
pub open spec fn verdict(r: Result<Credentials, String>) -> Verdict {
    match r {
        Ok(c) => Ok((c.key@, c.source@)),
        Err(m) => Err(m@),
    }
}

/// What an answer of the keychain says.
pub open spec fn answer_view(r: Result<Option<String>, String>) -> Result<
    Option<Seq<char>>,
    Seq<char>,
> {
    match r {
        Ok(key) => Ok(owned_view(key)),
        Err(m) => Err(m@),
    }
}

/// What the keychain's answer comes to.
pub open spec fn keychain_verdict(answer: Result<Option<Seq<char>>, Seq<char>>) -> Verdict {
    match answer {
        Err(m) => Err(m),
        Ok(key) => match filled(key) {
            Some(k) => Ok((k, "FlyOnTheWall Keychain"@)),
            None => Err(
                "No Deepgram key. Configure DEEPGRAM_API_KEY or FlyOnTheWall's Keychain key."@,
            ),
        },
    }
}

/// One entry of a file: a name and its value, or `None` where the file is malformed.
pub type Entry = Option<(Seq<char>, Seq<char>)>;

/// The views of entries.
pub open spec fn entries_view(entries: Seq<Option<(String, String)>>) -> Seq<Entry> {
    entries.map_values(
        |e: Option<(String, String)>|
            match e {
                Some(p) => Some(pair(p)),
                None => None,
            },
    )
}

/// Every entry is well formed.
pub open spec fn well_formed(entries: Seq<Entry>) -> bool {
    forall|i: int| 0 <= i < entries.len() ==> (#[trigger] entries[i]) is Some
}

/// The key that the entries of a file give, if any.
pub open spec fn entries_key(entries: Seq<Entry>) -> Result<Option<Seq<char>>, Seq<char>> {
    if well_formed(entries) {
        Ok(filled(value_of(entries.map_values(|e: Entry| e->0), key_name())))
    } else {
        Err("Invalid .env syntax; values withheld"@)
    }
}

/// The entries of a file, as `dotenvy::from_read_iter` gives them to a process without
/// environment variables.
pub uninterp spec fn dotenv_entries(bytes: Seq<u8>) -> Seq<Option<(Seq<char>, Seq<char>)>>;

/// The entries are among those that `dotenvy::from_read_iter` gives for a file, whatever the
/// environment is.
pub uninterp spec fn dotenv_may_give(
    bytes: Seq<u8>,
    entries: Seq<Option<(Seq<char>, Seq<char>)>>,
) -> bool;

/// The same entries are malformed, and the others have the same names.
pub open spec fn same_names(a: Seq<Entry>, b: Seq<Entry>) -> bool {
    &&& a.len() == b.len()
    &&& forall|i: int|
        #![trigger a[i]]
        #![trigger b[i]]
        0 <= i < a.len() ==> {
            &&& a[i] is Some <==> b[i] is Some
            &&& a[i] is Some ==> (a[i]->0).0 == (b[i]->0).0
        }
}

/// Entries that a file gives. The environment decides no more than the values in a file
/// with a dollar sign: a value may name a variable behind one.
pub open spec fn gives(bytes: Seq<u8>, entries: Seq<Entry>) -> bool {
    &&& dotenv_may_give(bytes, entries)
    &&& same_names(entries, dotenv_entries(bytes))
    &&& !bytes.contains(0x24u8) ==> entries == dotenv_entries(bytes)
}

/// Calls `dotenvy::from_read_iter` and collects its entries, errors as `None`. Claims that
/// the entries are among those that the bytes can give; that how many there are, which are
/// malformed and which names the others have depends on the bytes alone; and that the values
/// do too where no dollar sign stands among the bytes. What a variable of the environment
/// puts into a value behind a dollar sign is not said.
#[verifier::external_body]
fn read_entries(bytes: &[u8]) -> (r: Vec<Option<(String, String)>>)
    ensures
        dotenv_may_give(bytes@, entries_view(r@)),
        same_names(entries_view(r@), dotenv_entries(bytes@)),
        !bytes@.contains(0x24u8) ==> entries_view(r@) == dotenv_entries(bytes@),
{
    dotenvy::from_read_iter(bytes).map(|entry| entry.ok()).collect()
}

/// A configured file, as it was found.
pub enum EnvFile {
    /// It could not be opened.
    Missing,
    /// It could be opened but not read to its end.
    Broken,
    Text(Vec<u8>),
}

/// `key` is what the file says: the key that it gives, if any, or why that is not known.
pub open spec fn file_says(file: EnvFile, key: Result<Option<Seq<char>>, Seq<char>>) -> bool {
    match file {
        EnvFile::Missing => key == Err::<Option<Seq<char>>, Seq<char>>(
            "Cannot read the configured .env file"@,
        ),
        EnvFile::Broken => key == Err::<Option<Seq<char>>, Seq<char>>(
            "Invalid .env syntax; values withheld"@,
        ),
        EnvFile::Text(bytes) => exists|entries: Seq<Entry>| #[trigger]
            gives(bytes@, entries) && key == entries_key(entries),
    }
}

/// The value that was given to a name last.
pub fn lookup<'a>(vars: &'a [(String, String)], name: &str) -> (r: Option<&'a str>)
    ensures
        view_of(r) == value_of(pairs(vars@), name@),
{
    let ghost all = pairs(vars@);
    let mut i: usize = vars.len();
    assert(all.take(all.len() as int) =~= all);
    while i > 0
        invariant
            i <= vars.len(),
            all == pairs(vars@),
            value_of(all, name@) == value_of(all.take(i as int), name@),
        decreases i,
    {
        i -= 1;
        proof {
            assert(all.take(i + 1).last() == all[i as int]);
            assert(all.take(i + 1).drop_last() =~= all.take(i as int));
        }
        let entry = &vars[i];
        if same(entry.0.as_str(), name) {
            return Some(entry.1.as_str());
        }
    }
    None
}

/// The value that was given to a name last, unless it is blank.
pub fn lookup_filled<'a>(vars: &'a [(String, String)], name: &str) -> (r: Option<&'a str>)
    ensures
        view_of(r) == filled(value_of(pairs(vars@), name@)),
{
    match lookup(vars, name) {
        Some(value) => if is_blank(value) {
            None
        } else {
            Some(value)
        },
        None => None,
    }
}

proof fn lemma_well_formed_values(
    entries: Seq<Option<(String, String)>>,
    list: Seq<(String, String)>,
)
    requires
        entries.len() == list.len(),
        forall|i: int| 0 <= i < list.len() ==> (#[trigger] entries[i]) is Some,
        forall|i: int| 0 <= i < list.len() ==> pair(#[trigger] list[i]) == pair(entries[i]->0),
    ensures
        well_formed(entries_view(entries)),
        entries_view(entries).map_values(|e: Entry| e->0) == pairs(list),
{
    assert forall|i: int| 0 <= i < entries.len() implies (
    #[trigger] entries_view(entries)[i]) is Some by {
        assert(pair(list[i]) == pair(entries[i]->0));
    }
    let values = entries_view(entries).map_values(|e: Entry| e->0);
    assert forall|i: int| 0 <= i < entries.len() implies #[trigger] values[i] == pairs(list)[i] by {
        assert(pair(list[i]) == pair(entries[i]->0));
    }
    assert(values =~= pairs(list));
}

/// The key that the entries of a file give. Of several values the last counts, a blank one
/// is none, and a malformed entry spoils the file.
pub fn key_in(entries: &[Option<(String, String)>]) -> (r: Result<Option<String>, String>)
    ensures
        answer_view(r) == entries_key(entries_view(entries@)),
{
    let mut list: Vec<(String, String)> = Vec::new();
    let mut i: usize = 0;
    while i < entries.len()
        invariant
            i <= entries.len(),
            list.len() == i,
            forall|j: int| 0 <= j < i ==> (#[trigger] entries@[j]) is Some,
            forall|j: int| 0 <= j < i ==> pair(#[trigger] list@[j]) == pair(entries@[j]->0),
        decreases entries.len() - i,
    {
        match &entries[i] {
            Some(entry) => {
                list.push((entry.0.as_str().to_owned(), entry.1.as_str().to_owned()));
            },
            None => {
                assert(entries_view(entries@)[i as int] is None);
                return Err("Invalid .env syntax; values withheld".to_owned());
            },
        }
        i += 1;
    }
    proof {
        lemma_well_formed_values(entries@, list@);
    }
    match lookup_filled(list.as_slice(), "DEEPGRAM_API_KEY") {
        Some(key) => Ok(Some(key.to_owned())),
        None => Ok(None),
    }
}

/// The key that a file gives.
pub fn key_in_file(file: &EnvFile) -> (r: Result<Option<String>, String>)
    ensures
        file_says(*file, answer_view(r)),
{
    match file {
        EnvFile::Missing => Err("Cannot read the configured .env file".to_owned()),
        EnvFile::Broken => Err("Invalid .env syntax; values withheld".to_owned()),
        EnvFile::Text(bytes) => {
            let entries = read_entries(bytes.as_slice());
            let r = key_in(entries.as_slice());
            assert(gives(bytes@, entries_view(entries@)));
            r
        },
    }
}

/// What the keychain's answer comes to.
pub fn from_keychain(answer: Result<Option<String>, String>) -> (r: Result<Credentials, String>)
    ensures
        verdict(r) == keychain_verdict(answer_view(answer)),
{
    match answer {
        Err(message) => Err(message),
        Ok(Some(key)) => if is_blank(key.as_str()) {
            Err(
                "No Deepgram key. Configure DEEPGRAM_API_KEY or FlyOnTheWall's Keychain key.".to_owned(),
            )
        } else {
            Ok(Credentials { key: SecretString::new(key), source: "FlyOnTheWall Keychain" })
        },
        Ok(None) => Err(
            "No Deepgram key. Configure DEEPGRAM_API_KEY or FlyOnTheWall's Keychain key.".to_owned(),
        ),
    }
}

/// The key: that of the environment, else that of the file, else that of the keychain. The
/// file is read, and the keychain asked, only where nothing before them gave a key.
pub fn resolve<R: FnOnce(&str) -> EnvFile, F: FnOnce() -> Result<Option<String>, String>>(
    vars: &[(String, String)],
    path: Option<&str>,
    read: R,
    fallback: F,
) -> (r: Result<Credentials, String>)
    requires
        filled(value_of(pairs(vars@), key_name())) is None ==> {
            &&& path matches Some(p) ==> call_requires(read, (p,))
            &&& (path matches Some(p) ==> exists|file: EnvFile| #[trigger]
                call_ensures(read, (p,), file) && file_says(file, Ok(None))) ==> call_requires(
                fallback,
                (),
            )
        },
    ensures
        match filled(value_of(pairs(vars@), key_name())) {
            Some(key) => verdict(r) == Ok::<(Seq<char>, Seq<char>), Seq<char>>(
                (key, "environment"@),
            ),
            None => match path {
                Some(p) => exists|file: EnvFile, key: Result<Option<Seq<char>>, Seq<char>>|
                    #![trigger file_says(file, key)]
                    {
                        &&& call_ensures(read, (p,), file)
                        &&& file_says(file, key)
                        &&& match key {
                            Err(message) => verdict(r) == Err::<(Seq<char>, Seq<char>), Seq<char>>(
                                message,
                            ),
                            Ok(Some(k)) => verdict(r) == Ok::<(Seq<char>, Seq<char>), Seq<char>>(
                                (k, "dotenv"@),
                            ),
                            Ok(None) => keychain_decides(fallback, r),
                        }
                    },
                None => keychain_decides(fallback, r),
            },
        },
        resolved_as(pairs(vars@), path, read, fallback, r),
{
    if let Some(key) = lookup_filled(vars, "DEEPGRAM_API_KEY") {
        return Ok(
            Credentials { key: SecretString::new(key.to_owned()), source: "environment" },
        );
    }
    if let Some(p) = path {
        let file = read(p);
        let found = key_in_file(&file);
        assert(file_says(file, answer_view(found)));
        match found {
            Err(message) => {
                return Err(message);
            },
            Ok(Some(key)) => {
                return Ok(Credentials { key: SecretString::new(key), source: "dotenv" });
            },
            Ok(None) => {},
        }
    }
    let answer = fallback();
    let r = from_keychain(answer);
    assert(keychain_decides(fallback, r));
    r
}

/// The file at `path` was read, and what it says decides; where it gives no key, the keychain
/// does.
pub open spec fn file_or_keychain_decides<
    R: FnOnce(&str) -> EnvFile,
    F: FnOnce() -> Result<Option<String>, String>,
>(path: &str, read: R, fallback: F, r: Result<Credentials, String>) -> bool {
    exists|file: EnvFile, key: Result<Option<Seq<char>>, Seq<char>>|
        #![trigger file_says(file, key)]
        {
            &&& call_ensures(read, (path,), file)
            &&& file_says(file, key)
            &&& match key {
                Err(message) => verdict(r) == Err::<(Seq<char>, Seq<char>), Seq<char>>(message),
                Ok(Some(k)) => verdict(r) == Ok::<(Seq<char>, Seq<char>), Seq<char>>(
                    (k, "dotenv"@),
                ),
                Ok(None) => keychain_decides(fallback, r),
            }
        }
}

/// `r` is the key that the environment, the file and the keychain come to.
pub open spec fn resolved_as<
    R: FnOnce(&str) -> EnvFile,
    F: FnOnce() -> Result<Option<String>, String>,
>(
    vars: Seq<(Seq<char>, Seq<char>)>,
    path: Option<&str>,
    read: R,
    fallback: F,
    r: Result<Credentials, String>,
) -> bool {
    match filled(value_of(vars, key_name())) {
        Some(key) => verdict(r) == Ok::<(Seq<char>, Seq<char>), Seq<char>>((key, "environment"@)),
        None => match path {
            Some(p) => file_or_keychain_decides(p, read, fallback, r),
            None => keychain_decides(fallback, r),
        },
    }
}

/// The keychain was asked, and its answer decides.
pub open spec fn keychain_decides<F: FnOnce() -> Result<Option<String>, String>>(
    fallback: F,
    r: Result<Credentials, String>,
) -> bool {
    exists|answer: Result<Option<String>, String>|
        #![trigger answer_view(answer)]
        call_ensures(fallback, (), answer) && verdict(r) == keychain_verdict(answer_view(answer))
}

/// The path of `name` below the folder `base`, where `name` is relative.
pub open spec fn below(base: Seq<char>, name: Seq<char>) -> Seq<char> {
    if base.len() == 0 || base.last() == '/' {
        base + name
    } else {
        base + seq!['/'] + name
    }
}

/// The path of `name` below the folder `base`, where `name` is relative.
pub fn join(base: &str, name: &str) -> (r: String)
    ensures
        r@ == below(base@, name@),
{
    let n: usize = base.unicode_len();
    let mut path = base.to_owned();
    if n > 0 && base.get_char(n - 1) != '/' {
        proof {
            reveal_strlit("/");
            assert("/"@ =~= seq!['/']);
        }
        path.append("/");
    }
    path.append(name);
    path
}

/// The path without its last component, as `std::path::Path::parent` gives it.
pub uninterp spec fn path_parent(path: Seq<char>) -> Option<Seq<char>>;

/// The last component of the path, as `std::path::Path::file_name` gives it.
pub uninterp spec fn path_file_name(path: Seq<char>) -> Option<Seq<char>>;

/// `name` directly in the folder `folder`.
pub open spec fn within(folder: Seq<char>, name: Seq<char>) -> Seq<char> {
    folder.push('/') + name
}

/// The text is the name of a file or a folder.
pub open spec fn component(name: Seq<char>) -> bool {
    name.len() > 0 && !name.contains('/') && name != "."@ && name != ".."@
}

/// The text is the path of a folder that ends with the name of one, or stands for the root.
pub open spec fn settled(folder: Seq<char>) -> bool {
    let n = folder.len() as int;
    n == 0 || (folder[n - 1] != '/' && !(n >= 2 && folder[n - 2] == '/' && folder[n - 1] == '.'))
}

/// Where the last full stop stands in a name, or the start of the name.
pub open spec fn last_stop(name: Seq<char>) -> int
    decreases name.len(),
{
    if name.len() == 0 {
        0
    } else if name.last() == '.' {
        name.len() - 1
    } else {
        last_stop(name.drop_last())
    }
}

/// What stands behind the last full stop of a name, unless the name begins with it.
pub open spec fn suffix(name: Seq<char>) -> Option<Seq<char>> {
    if last_stop(name) > 0 {
        Some(name.skip(last_stop(name) + 1))
    } else {
        None
    }
}

/// The extension of the last component of a path.
pub open spec fn path_extension(path: Seq<char>) -> Option<Seq<char>> {
    match path_file_name(path) {
        Some(name) => suffix(name),
        None => None,
    }
}

/// Calls `std::path::Path::parent` on a path whose components `/` separates. Claims that the
/// outcome is a function of the path's text, and that the parent of a name in a folder is
/// that folder.
#[verifier::external_body]
fn parent(path: &str) -> (r: Option<String>)
    ensures
        owned_view(r) == path_parent(path@),
        forall|folder: Seq<char>, name: Seq<char>|
            path@ == #[trigger] within(folder, name) && settled(folder) && component(name)
                ==> owned_view(r) == Some(
                if folder.len() == 0 {
                    "/"@
                } else {
                    folder
                },
            ),
{
    std::path::Path::new(path).parent().and_then(|parent| parent.to_str()).map(String::from)
}

/// Calls `std::path::Path::file_name` on a path whose components `/` separates. Claims that
/// the outcome is a function of the path's text, and that it is the name of a name in a
/// folder.
#[verifier::external_body]
fn file_name(path: &str) -> (r: Option<String>)
    ensures
        owned_view(r) == path_file_name(path@),
        forall|folder: Seq<char>, name: Seq<char>|
            path@ == #[trigger] within(folder, name) && settled(folder) && component(name)
                ==> owned_view(r) == Some(name),
{
    std::path::Path::new(path).file_name().and_then(|name| name.to_str()).map(String::from)
}

/// Calls `std::path::Path::extension` on a path whose components `/` separates. Claims that
/// it is what stands behind the last full stop of the file name, if there is a file name that
/// does not begin with that stop; and so of a name in a folder.
#[verifier::external_body]
fn extension(path: &str) -> (r: Option<String>)
    ensures
        owned_view(r) == path_extension(path@),
        forall|folder: Seq<char>, name: Seq<char>|
            path@ == #[trigger] within(folder, name) && settled(folder) && component(name)
                ==> owned_view(r) == suffix(name),
{
    std::path::Path::new(path).extension().and_then(|part| part.to_str()).map(String::from)
}

/// Where a program lies: what stands above it in its path.
#[derive(Debug)]
pub struct Place {
    /// The name of the folder that holds the program.
    pub folder: Option<String>,
    /// The name of the folder that holds that folder.
    pub contents: Option<String>,
    /// The extension of the folder above those two.
    pub extension: Option<String>,
    /// The path of the folder that holds all three.
    pub outside: Option<String>,
}

pub ghost struct PlaceModel {
    pub folder: Option<Seq<char>>,
    pub contents: Option<Seq<char>>,
    pub extension: Option<Seq<char>>,
    pub outside: Option<Seq<char>>,
}

impl View for Place {
    type V = PlaceModel;

    open spec fn view(&self) -> PlaceModel {
        PlaceModel {
            folder: owned_view(self.folder),
            contents: owned_view(self.contents),
            extension: owned_view(self.extension),
            outside: owned_view(self.outside),
        }
    }
}

/// The path of the file beside the bundle that the program lies in.
pub open spec fn beside_bundle(place: PlaceModel) -> Option<Seq<char>> {
    if place.folder == Some("MacOS"@) && place.contents == Some("Contents"@) && place.extension
        == Some("app"@) {
        match place.outside {
            Some(outside) => Some(below(outside, ".env"@)),
            None => None,
        }
    } else {
        None
    }
}

fn named(name: &Option<String>, wanted: &str) -> (r: bool)
    ensures
        r == (owned_view(*name) == Some(wanted@)),
{
    match name {
        Some(name) => same(name.as_str(), wanted),
        None => false,
    }
}

/// The path of the file beside the bundle that the program lies in.
pub fn env_beside(place: &Place) -> (r: Option<String>)
    ensures
        owned_view(r) == beside_bundle(place@),
{
    if !named(&place.folder, "MacOS") || !named(&place.contents, "Contents") || !named(
        &place.extension,
        "app",
    ) {
        return None;
    }
    match &place.outside {
        Some(outside) => Some(join(outside.as_str(), ".env")),
        None => None,
    }
}

/// The folder above a path that may be absent.
pub open spec fn above(path: Option<Seq<char>>) -> Option<Seq<char>> {
    match path {
        Some(path) => path_parent(path),
        None => None,
    }
}

/// The last component of a path that may be absent.
pub open spec fn name_in(path: Option<Seq<char>>) -> Option<Seq<char>> {
    match path {
        Some(path) => path_file_name(path),
        None => None,
    }
}

/// The extension of a path that may be absent.
pub open spec fn extension_in(path: Option<Seq<char>>) -> Option<Seq<char>> {
    match path {
        Some(path) => path_extension(path),
        None => None,
    }
}

/// Where the program with this path lies.
pub open spec fn place_of(executable: Seq<char>) -> PlaceModel {
    let folder = path_parent(executable);
    let contents = above(folder);
    let bundle = above(contents);
    PlaceModel {
        folder: name_in(folder),
        contents: name_in(contents),
        extension: extension_in(bundle),
        outside: above(bundle),
    }
}

/// The path of a program three folders below the folder `outside`.
pub open spec fn program_path(
    outside: Seq<char>,
    bundle: Seq<char>,
    contents: Seq<char>,
    folder: Seq<char>,
    program: Seq<char>,
) -> Seq<char> {
    within(within(within(within(outside, bundle), contents), folder), program)
}

/// The place of a program is what its path says: the file beside the bundle is looked for
/// exactly where the path is that of a program in `Contents/MacOS` of a bundle.
pub open spec fn reads_paths(executable: Seq<char>) -> bool {
    forall|
        outside: Seq<char>,
        bundle: Seq<char>,
        contents: Seq<char>,
        folder: Seq<char>,
        program: Seq<char>,
    |
        executable == #[trigger] program_path(outside, bundle, contents, folder, program)
            && settled(outside) && component(bundle) && component(contents) && component(folder)
            && component(program) ==> beside_bundle(place_of(executable)) == if folder == "MacOS"@
            && contents == "Contents"@ && suffix(bundle) == Some("app"@) {
            Some(within(outside, ".env"@))
        } else {
            None
        }
}

proof fn lemma_settled_within(folder: Seq<char>, name: Seq<char>)
    requires
        component(name),
    ensures
        settled(within(folder, name)),
{
    let path = within(folder, name);
    let n = name.len() as int;
    let end = path.len() - 1;
    assert(path[end] == name[n - 1]);
    assert(name.contains(name[n - 1]));
    if n >= 2 {
        assert(path[end - 1] == name[n - 2]);
        assert(name.contains(name[n - 2]));
    } else if name[0] == '.' {
        reveal_strlit(".");
        assert(name =~= "."@);
    }
}

fn parent_of(path: &Option<String>) -> (r: Option<String>)
    ensures
        owned_view(r) == above(owned_view(*path)),
        *path matches Some(p) ==> forall|folder: Seq<char>, name: Seq<char>|
            p@ == #[trigger] within(folder, name) && settled(folder) && component(name)
                ==> owned_view(r) == Some(
                if folder.len() == 0 {
                    "/"@
                } else {
                    folder
                },
            ),
{
    match path {
        Some(path) => parent(path.as_str()),
        None => None,
    }
}

fn name_of(path: &Option<String>) -> (r: Option<String>)
    ensures
        owned_view(r) == name_in(owned_view(*path)),
        *path matches Some(p) ==> forall|folder: Seq<char>, name: Seq<char>|
            p@ == #[trigger] within(folder, name) && settled(folder) && component(name)
                ==> owned_view(r) == Some(name),
{
    match path {
        Some(path) => file_name(path.as_str()),
        None => None,
    }
}

impl Place {
    /// Where the program with this path lies.
    pub fn find(executable: &str) -> (r: Place)
        ensures
            r@ == place_of(executable@),
            reads_paths(executable@),
    {
        let folder = parent(executable);
        let contents = parent_of(&folder);
        let bundle = parent_of(&contents);
        let outside = parent_of(&bundle);
        let suffix = match &bundle {
            Some(bundle) => extension(bundle.as_str()),
            None => None,
        };
        let place = Place {
            folder: name_of(&folder),
            contents: name_of(&contents),
            extension: suffix,
            outside,
        };
        proof {
            assert forall|o: Seq<char>, b: Seq<char>, c: Seq<char>, f: Seq<char>, p: Seq<char>|
                executable@ == #[trigger] program_path(o, b, c, f, p) && settled(o) && component(b)
                    && component(c) && component(f) && component(p) implies place_of(
                executable@,
            ) == (PlaceModel {
                folder: Some(f),
                contents: Some(c),
                extension: self::suffix(b),
                outside: Some(
                    if o.len() == 0 {
                        "/"@
                    } else {
                        o
                    },
                ),
            }) && below(
                if o.len() == 0 {
                    "/"@
                } else {
                    o
                },
                ".env"@,
            ) == within(o, ".env"@) by {
                let bundle_path = within(o, b);
                let contents_path = within(bundle_path, c);
                let folder_path = within(contents_path, f);
                lemma_settled_within(o, b);
                lemma_settled_within(bundle_path, c);
                lemma_settled_within(contents_path, f);
                assert(owned_view(folder) == Some(folder_path));
                assert(owned_view(contents) == Some(contents_path));
                assert(owned_view(bundle) == Some(bundle_path));
                reveal_strlit("/");
                assert("/"@ =~= seq!['/']);
                assert(below(
                    if o.len() == 0 {
                        "/"@
                    } else {
                        o
                    },
                    ".env"@,
                ) =~= within(o, ".env"@));
            }
        }
        place
    }
}

/// The file beside the application bundle that the program with this path lies in, if there
/// is one.
pub fn bundle_env<F: FnOnce(&str) -> bool>(executable: &str, is_file: F) -> (r: Option<String>)
    requires
        forall|path: &str|
            beside_bundle(place_of(executable@)) == Some(path@) ==> call_requires(
                is_file,
                (path,),
            ),
    ensures
        match beside_bundle(place_of(executable@)) {
            None => r is None,
            Some(p) => exists|path: &str, found: bool| #[trigger]
                call_ensures(is_file, (path,), found) && path@ == p && owned_view(r) == if found {
                    Some(p)
                } else {
                    None
                },
        },
        reads_paths(executable@),
{
    match env_beside(&Place::find(executable)) {
        Some(path) => if is_file(path.as_str()) {
            Some(path)
        } else {
            None
        },
        None => None,
    }
}

/// The file that a desktop with a keychain reads.
pub open spec fn chosen_file(
    vars: Seq<(Seq<char>, Seq<char>)>,
    bundle: Option<Seq<char>>,
    local_exists: bool,
) -> Option<Seq<char>> {
    match filled(value_of(vars, "FOTW_ENV_FILE"@)) {
        Some(path) => Some(path),
        None => match bundle {
            Some(path) => Some(path),
            None => if local_exists {
                Some(".env"@)
            } else {
                None
            },
        },
    }
}

/// The file that a desktop with a keychain reads: the configured one, else that beside the
/// bundle, else one in the working folder.
pub fn env_file(
    vars: &[(String, String)],
    bundle: Option<String>,
    local_exists: bool,
) -> (r: Option<String>)
    ensures
        owned_view(r) == match filled(value_of(pairs(vars@), "FOTW_ENV_FILE"@)) {
            Some(path) => Some(path),
            None => match bundle {
                Some(path) => Some(path@),
                None => if local_exists {
                    Some(".env"@)
                } else {
                    None
                },
            },
        },
        owned_view(r) == chosen_file(pairs(vars@), owned_view(bundle), local_exists),
{
    match lookup_filled(vars, "FOTW_ENV_FILE") {
        Some(path) => Some(path.to_owned()),
        None => match bundle {
            Some(path) => Some(path),
            None => if local_exists {
                Some(".env".to_owned())
            } else {
                None
            },
        },
    }
}

/// Whatever a file holds, the error that it gives says nothing of it.
pub proof fn errors_withhold_the_file(file: EnvFile, message: Seq<char>)
    requires
        file_says(file, Err(message)),
    ensures
        message == "Cannot read the configured .env file"@ || message
            == "Invalid .env syntax; values withheld"@,
{
}

/// Whether a file is malformed is decided by its bytes, not by the environment.
pub proof fn bytes_decide_whether_a_file_is_malformed(
    bytes: Vec<u8>,
    key: Result<Option<Seq<char>>, Seq<char>>,
)
    requires
        file_says(EnvFile::Text(bytes), key),
    ensures
        key is Err <==> !well_formed(dotenv_entries(bytes@)),
{
    let entries = choose|entries: Seq<Entry>| #[trigger]
        gives(bytes@, entries) && key == entries_key(entries);
    if well_formed(entries) {
        assert forall|i: int| 0 <= i < entries.len() implies (
        #[trigger] dotenv_entries(bytes@)[i]) is Some by {
            assert(entries[i] is Some);
        }
    } else {
        let i = choose|i: int| 0 <= i < entries.len() && !((#[trigger] entries[i]) is Some);
        assert(dotenv_entries(bytes@)[i] is None);
    }
}

/// The value given to a name last counts, and other names do not touch it.
pub proof fn later_values_count(
    list: Seq<(Seq<char>, Seq<char>)>,
    name: Seq<char>,
    value: Seq<char>,
    other: Seq<char>,
)
    ensures
        value_of(Seq::<(Seq<char>, Seq<char>)>::empty(), name) is None,
        value_of(list.push((name, value)), name) == Some(value),
        other != name ==> value_of(list.push((other, value)), name) == value_of(list, name),
{
    assert(list.push((name, value)).drop_last() =~= list);
    assert(list.push((other, value)).drop_last() =~= list);
}

/// A value that holds anything besides white space is used whole; any other is none.
pub proof fn values_are_used_whole(value: Seq<char>)
    ensures
        (exists|i: int| 0 <= i < value.len() && !white(#[trigger] value[i])) ==> filled(Some(value))
            == Some(value),
        (forall|i: int| 0 <= i < value.len() ==> white(#[trigger] value[i])) ==> filled(
            Some(value),
        ) is None,
        filled(None) is None,
{
}

/// A key in the keychain is used whole; without one, or with a blank one, there is none; an
/// error is told as it is.
pub proof fn keychain_keys_are_used_whole(key: Seq<char>, message: Seq<char>)
    ensures
        !blank(key) ==> keychain_verdict(Ok(Some(key))) == Ok::<(Seq<char>, Seq<char>), Seq<char>>(
            (key, "FlyOnTheWall Keychain"@),
        ),
        blank(key) ==> keychain_verdict(Ok(Some(key))) == keychain_verdict(Ok(None)),
        keychain_verdict(Ok(None)) == Err::<(Seq<char>, Seq<char>), Seq<char>>(
            "No Deepgram key. Configure DEEPGRAM_API_KEY or FlyOnTheWall's Keychain key."@,
        ),
        keychain_verdict(Err(message)) == Err::<(Seq<char>, Seq<char>), Seq<char>>(message),
{
}

/// An entry of a file for the key gives it, whole, unless it is blank, however many came before
/// it; one of another name changes nothing; a malformed one anywhere spoils the file.
pub proof fn the_last_entry_gives_the_key(entries: Seq<Entry>, name: Seq<char>, value: Seq<char>)
    ensures
        entries_key(Seq::<Entry>::empty()) == Ok::<Option<Seq<char>>, Seq<char>>(None),
        well_formed(entries) && name == "DEEPGRAM_API_KEY"@ ==> entries_key(
            entries.push(Some((name, value))),
        ) == Ok::<Option<Seq<char>>, Seq<char>>(
            if blank(value) {
                None
            } else {
                Some(value)
            },
        ),
        name != "DEEPGRAM_API_KEY"@ ==> entries_key(entries.push(Some((name, value))))
            == entries_key(entries),
        (exists|i: int| 0 <= i < entries.len() && (#[trigger] entries[i]) is None) <==> entries_key(
            entries,
        ) == Err::<Option<Seq<char>>, Seq<char>>("Invalid .env syntax; values withheld"@),
{
    let entry: Entry = Some((name, value));
    let more = entries.push(entry);
    assert forall|i: int| well_formed(more) && 0 <= i < entries.len() implies (
    #[trigger] entries[i]) is Some by {
        assert(more[i] == entries[i]);
    }
    let known = entries.map_values(|e: Entry| e->0);
    assert(more.map_values(|e: Entry| e->0) =~= known.push((name, value)));
    later_values_count(known, name, value, name);
    later_values_count(known, "DEEPGRAM_API_KEY"@, value, name);
    assert(Seq::<Entry>::empty().map_values(|e: Entry| e->0) =~= Seq::<
        (Seq<char>, Seq<char>),
    >::empty());
    if well_formed(entries) {
        assert forall|i: int| 0 <= i < more.len() implies (#[trigger] more[i]) is Some by {
            if i < entries.len() {
                assert(entries[i] is Some);
            }
        }
    }
}

/// A file without a dollar sign says what its entries say, whatever the environment is; one
/// that cannot be read says why.
pub proof fn files_say_what_they_hold(bytes: Vec<u8>, key: Result<Option<Seq<char>>, Seq<char>>)
    ensures
        file_says(EnvFile::Text(bytes), key) && !bytes@.contains(0x24u8) ==> key == entries_key(
            dotenv_entries(bytes@),
        ),
        file_says(EnvFile::Missing, key) <==> key == Err::<Option<Seq<char>>, Seq<char>>(
            "Cannot read the configured .env file"@,
        ),
        file_says(EnvFile::Broken, key) <==> key == Err::<Option<Seq<char>>, Seq<char>>(
            "Invalid .env syntax; values withheld"@,
        ),
{
}

/// A name below a folder is the folder, one slash and the name: a slash at the end of the
/// folder is not doubled.
pub proof fn paths_are_joined_by_one_slash(base: Seq<char>, name: Seq<char>)
    ensures
        below(Seq::<char>::empty(), name) == name,
        base.len() > 0 && base.last() != '/' ==> below(base, name) == base.push('/') + name,
        below(base.push('/'), name) == base.push('/') + name,
{
    assert(below(Seq::<char>::empty(), name) =~= name);
    assert(base + seq!['/'] + name =~= base.push('/') + name);
}

proof fn lemma_last_stop(stem: Seq<char>, end: Seq<char>)
    requires
        !end.contains('.'),
    ensures
        last_stop(stem.push('.') + end) == stem.len(),
    decreases end.len(),
{
    let name = stem.push('.') + end;
    if end.len() > 0 {
        assert(end.contains(end.last()));
        assert(name.drop_last() =~= stem.push('.') + end.drop_last());
        assert forall|c: char| end.drop_last().contains(c) implies end.contains(c) by {
            let i = choose|i: int| 0 <= i < end.drop_last().len() && end.drop_last()[i] == c;
            assert(end[i] == c);
        }
        lemma_last_stop(stem, end.drop_last());
    } else {
        assert(name =~= stem.push('.'));
    }
}

proof fn lemma_no_stop(name: Seq<char>)
    requires
        !name.contains('.'),
    ensures
        last_stop(name) == 0,
    decreases name.len(),
{
    if name.len() > 0 {
        assert(name.contains(name.last()));
        assert forall|c: char| name.drop_last().contains(c) implies name.contains(c) by {
            let i = choose|i: int| 0 <= i < name.drop_last().len() && name.drop_last()[i] == c;
            assert(name[i] == c);
        }
        lemma_no_stop(name.drop_last());
    }
}

/// The suffix of a name is what stands behind its last full stop, unless that stop begins the
/// name; a name without a stop has none.
pub proof fn suffixes_stand_behind_the_last_stop(stem: Seq<char>, end: Seq<char>)
    requires
        !end.contains('.'),
    ensures
        stem.len() > 0 ==> suffix(stem.push('.') + end) == Some(end),
        suffix(seq!['.'] + end) is None,
        suffix(end) is None,
{
    lemma_last_stop(stem, end);
    assert((stem.push('.') + end).skip(stem.len() as int + 1) =~= end);
    lemma_last_stop(Seq::empty(), end);
    assert(Seq::<char>::empty().push('.') + end =~= seq!['.'] + end);
    lemma_no_stop(end);
}

/// The file beside a bundle is looked for exactly where the program lies in `Contents/MacOS` of
/// a folder with the suffix `app`, in the folder that holds that one.
pub proof fn bundles_have_a_file_beside_them(place: PlaceModel)
    ensures
        beside_bundle(place) is Some <==> {
            &&& place.folder == Some("MacOS"@)
            &&& place.contents == Some("Contents"@)
            &&& place.extension == Some("app"@)
            &&& place.outside is Some
        },
        beside_bundle(place) is Some ==> beside_bundle(place) == Some(
            below(place.outside->0, ".env"@),
        ),
{
}

/// A key in the environment is used, whole, whatever file or keychain there is.
pub proof fn the_environment_comes_first<
    R: FnOnce(&str) -> EnvFile,
    F: FnOnce() -> Result<Option<String>, String>,
>(
    vars: Seq<(Seq<char>, Seq<char>)>,
    path: Option<&str>,
    read: R,
    fallback: F,
    r: Result<Credentials, String>,
    key: Seq<char>,
)
    requires
        resolved_as(vars, path, read, fallback, r),
        value_of(vars, "DEEPGRAM_API_KEY"@) == Some(key),
        !blank(key),
    ensures
        verdict(r) == Ok::<(Seq<char>, Seq<char>), Seq<char>>((key, "environment"@)),
{
}

/// Without a key in the environment that of the file is used, whole; a file that cannot be
/// used ends the search with its error.
pub proof fn the_file_comes_second<
    R: FnOnce(&str) -> EnvFile,
    F: FnOnce() -> Result<Option<String>, String>,
>(
    vars: Seq<(Seq<char>, Seq<char>)>,
    path: &str,
    read: R,
    fallback: F,
    r: Result<Credentials, String>,
    bytes: Vec<u8>,
)
    requires
        resolved_as(vars, Some(path), read, fallback, r),
        value_of(vars, "DEEPGRAM_API_KEY"@) is None || blank(
            value_of(vars, "DEEPGRAM_API_KEY"@)->0,
        ),
        forall|file: EnvFile| #[trigger]
            call_ensures(read, (path,), file) ==> file == EnvFile::Text(bytes),
        !bytes@.contains(0x24u8),
    ensures
        match entries_key(dotenv_entries(bytes@)) {
            Ok(Some(key)) => verdict(r) == Ok::<(Seq<char>, Seq<char>), Seq<char>>(
                (key, "dotenv"@),
            ),
            Err(message) => verdict(r) == Err::<(Seq<char>, Seq<char>), Seq<char>>(message),
            Ok(None) => keychain_decides(fallback, r),
        },
{
    assert(file_or_keychain_decides(path, read, fallback, r));
}

/// Where neither the environment nor a file gives a key, the keychain's answer decides.
pub proof fn the_keychain_comes_last<
    R: FnOnce(&str) -> EnvFile,
    F: FnOnce() -> Result<Option<String>, String>,
>(
    vars: Seq<(Seq<char>, Seq<char>)>,
    read: R,
    fallback: F,
    r: Result<Credentials, String>,
    answer: Result<Option<String>, String>,
)
    requires
        resolved_as(vars, None, read, fallback, r),
        value_of(vars, "DEEPGRAM_API_KEY"@) is None || blank(
            value_of(vars, "DEEPGRAM_API_KEY"@)->0,
        ),
        forall|given: Result<Option<String>, String>| #[trigger]
            call_ensures(fallback, (), given) ==> given == answer,
    ensures
        verdict(r) == keychain_verdict(answer_view(answer)),
{
    assert(keychain_decides(fallback, r));
}

/// The file that is read is the configured one, whatever else there is; else the one beside the
/// bundle; else the one in the working folder, where there is one.
pub proof fn configured_files_come_first(
    vars: Seq<(Seq<char>, Seq<char>)>,
    path: Seq<char>,
    bundle: Option<Seq<char>>,
    local_exists: bool,
)
    ensures
        value_of(vars, "FOTW_ENV_FILE"@) == Some(path) && !blank(path) ==> chosen_file(
            vars,
            bundle,
            local_exists,
        ) == Some(path),
        filled(value_of(vars, "FOTW_ENV_FILE"@)) is None && bundle is Some ==> chosen_file(
            vars,
            bundle,
            local_exists,
        ) == bundle,
        filled(value_of(vars, "FOTW_ENV_FILE"@)) is None && bundle is None ==> (chosen_file(
            vars,
            bundle,
            local_exists,
        ) is Some <==> local_exists) && (local_exists ==> chosen_file(vars, bundle, local_exists)
            == Some(".env"@)),
{
}

/// The path of a program in `Contents/MacOS` of a bundle, whatever the names of the bundle and
/// the program are, leads to the file beside that bundle; a path with other folders does not.
pub proof fn programs_in_bundles_find_their_file(
    executable: Seq<char>,
    outside: Seq<char>,
    stem: Seq<char>,
    contents: Seq<char>,
    folder: Seq<char>,
    program: Seq<char>,
)
    requires
        reads_paths(executable),
        executable == outside + seq!['/'] + stem + ".app/"@ + contents + seq!['/'] + folder
            + seq!['/'] + program,
        settled(outside),
        stem.len() > 0,
        component(stem + ".app"@),
        component(contents),
        component(folder),
        component(program),
    ensures
        contents == "Contents"@ && folder == "MacOS"@ ==> beside_bundle(place_of(executable))
            == Some(outside + "/.env"@),
        contents != "Contents"@ || folder != "MacOS"@ ==> beside_bundle(
            place_of(executable),
        ) is None,
{
    reveal_strlit(".app/");
    reveal_strlit(".app");
    reveal_strlit("app");
    reveal_strlit("/.env");
    reveal_strlit(".env");
    let bundle = stem + ".app"@;
    assert(executable =~= program_path(outside, bundle, contents, folder, program));
    assert(bundle =~= stem.push('.') + "app"@);
    suffixes_stand_behind_the_last_stop(stem, "app"@);
    assert(within(outside, ".env"@) =~= outside + "/.env"@);
}

/// All names and values are looked at, each as it was given, and so are all entries of a file.
pub proof fn values_are_seen_as_they_were_given(
    list: Seq<(String, String)>,
    entries: Seq<Option<(String, String)>>,
    i: int,
)
    ensures
        pairs(list).len() == list.len(),
        0 <= i < list.len() ==> pairs(list)[i] == (list[i].0@, list[i].1@),
        entries_view(entries).len() == entries.len(),
        0 <= i < entries.len() ==> match entries[i] {
            Some(p) => entries_view(entries)[i] == Some((p.0@, p.1@)),
            None => entries_view(entries)[i] is None,
        },
{
}

/// A program's place is made of the names and folders that stand above it in its path.
pub proof fn places_are_read_from_the_path(executable: Seq<char>, path: Seq<char>)
    ensures
        above(Some(path)) == path_parent(path),
        name_in(Some(path)) == path_file_name(path),
        path_file_name(path) matches Some(name) ==> extension_in(Some(path)) == suffix(name),
        above(None) is None && name_in(None) is None && extension_in(None) is None,
        place_of(executable).folder == name_in(path_parent(executable)),
        place_of(executable).contents == name_in(above(path_parent(executable))),
        place_of(executable).extension == extension_in(above(above(path_parent(executable)))),
        place_of(executable).outside == above(above(above(path_parent(executable)))),
{
}

} // verus!
