use vstd::prelude::*;
use vstd::string::StringSliceAdditionalSpecFns;
use crate::state::CommandError;
use crate::yaml::{
    has_alias_mark, line_run, lines_within, load_documents, yaml_documents,
    YamlNode, MAX_LINE_BYTES,
};

verus! {

/// A plug-in of the index: its name, the revision to check out (a tag, a
/// branch or a commit) and the URL to clone it from.
#[derive(Clone, Debug, PartialEq, Eq)]
pub struct PluginDescriptor {
    pub name: String,
    pub version: String,
    pub url: String,
}

/// The text of a plug-in descriptor.
pub struct PluginInfo {
    pub name: Seq<char>,
    pub version: Seq<char>,
    pub url: Seq<char>,
}

impl View for PluginDescriptor {
    type V = PluginInfo;

    open spec fn view(&self) -> PluginInfo {
        PluginInfo { name: self.name@, version: self.version@, url: self.url@ }
    }
}

/// Why the index text cannot be read as an index.
#[derive(Clone, Copy, Debug, PartialEq, Eq, Structural)]
pub enum IndexError {
    /// The text is not YAML.
    Syntax,
    /// The text holds no YAML document.
    NoDocument,
    /// The first document is not a list.
    NotAList,
    /// A line of the text is longer than `MAX_LINE_BYTES` bytes.
    LineTooLong,
    /// The text holds a `*`: YAML aliases are not read.
    AliasMark,
    /// The entry at this position of the list lacks a string `name`,
    /// `version` or `url`.
    BadRecord(usize),
}

/// The text of a string scalar.
pub open spec fn string_value(n: YamlNode) -> Option<Seq<char>> {
    match n {
        YamlNode::Str(s) => Some(s@),
        _ => None,
    }
}

/// The value of the first entry whose key is the string `key`.
pub open spec fn entry_value(entries: Seq<(YamlNode, YamlNode)>, key: Seq<char>) -> Option<YamlNode>
    decreases entries.len(),
{
    if entries.len() == 0 {
        None
    } else if string_value(entries[0].0) == Some(key) {
        Some(entries[0].1)
    } else {
        entry_value(entries.drop_first(), key)
    }
}

/// The string that the mapping `record` holds under `key`.
pub open spec fn field(record: YamlNode, key: Seq<char>) -> Option<Seq<char>> {
    match record {
        YamlNode::Hash(entries) => match entry_value(entries@, key) {
            Some(v) => string_value(v),
            None => None,
        },
        _ => None,
    }
}

/// The descriptor that an entry of the index list gives, if it has all three
/// fields as strings.
pub open spec fn record_info(record: YamlNode) -> Option<PluginInfo> {
    match (field(record, "name"@), field(record, "version"@), field(record, "url"@)) {
        (Some(name), Some(version), Some(url)) => Some(PluginInfo { name, version, url }),
        _ => None,
    }
}

/// The descriptors of the entries of the index list, or the first entry that
/// gives none.
pub open spec fn records_info(items: Seq<YamlNode>) -> Result<Seq<PluginInfo>, IndexError>
    decreases items.len(),
{
    if items.len() == 0 {
        Ok(seq![])
    } else {
        match records_info(items.drop_last()) {
            Err(e) => Err(e),
            Ok(infos) => match record_info(items.last()) {
                Some(info) => Ok(infos.push(info)),
                None => Err(IndexError::BadRecord((items.len() - 1) as usize)),
            },
        }
    }
}

/// The index that YAML documents give: the list that is the first document.
pub open spec fn documents_index(docs: Seq<YamlNode>) -> Result<Seq<PluginInfo>, IndexError> {
    if docs.len() == 0 {
        Err(IndexError::NoDocument)
    } else {
        match docs[0] {
            YamlNode::Array(items) => records_info(items@),
            _ => Err(IndexError::NotAList),
        }
    }
}

/// Why the loader is not given the text, if it is not.
pub open spec fn bounds_error(bytes: Seq<u8>) -> Option<IndexError> {
    if !lines_within(bytes, MAX_LINE_BYTES as nat) {
        Some(IndexError::LineTooLong)
    } else if has_alias_mark(bytes) {
        Some(IndexError::AliasMark)
    } else {
        None
    }
}

/// The index that the text of an index file gives.
pub open spec fn text_index(text: &str) -> Result<Seq<PluginInfo>, IndexError> {
    match bounds_error(text.spec_bytes()) {
        Some(e) => Err(e),
        None => match yaml_documents(text@) {
            Some(docs) => documents_index(docs),
            None => Err(IndexError::Syntax),
        },
    }
}

pub open spec fn infos(index: Seq<PluginDescriptor>) -> Seq<PluginInfo> {
    index.map_values(|p: PluginDescriptor| p@)
}

pub open spec fn result_view(r: Result<Vec<PluginDescriptor>, IndexError>) -> Result<
    Seq<PluginInfo>,
    IndexError,
> {
    match r {
        Ok(v) => Ok(infos(v@)),
        Err(e) => Err(e),
    }
}

/// Once an entry gives no descriptor, no longer list does.
proof fn lemma_records_error_stays(items: Seq<YamlNode>, j: int)
    requires
        0 <= j <= items.len(),
        records_info(items.take(j)) is Err,
    ensures
        records_info(items) == records_info(items.take(j)),
    decreases items.len() - j,
{
    if j == items.len() {
        assert(items.take(j) =~= items);
    } else {
        assert(items.take(j + 1).drop_last() =~= items.take(j));
        lemma_records_error_stays(items, j + 1);
    }
}

/// The string under `key` in the mapping `record`.
fn field_of(record: &YamlNode, key: &String) -> (r: Option<String>)
    ensures
        match r {
            Some(s) => field(*record, key@) == Some(s@),
            None => field(*record, key@) is None,
        },
{
    match record {
        YamlNode::Hash(entries) => {
            let mut i: usize = 0;
            assert(entries@.skip(0) =~= entries@);
            while i < entries.len()
                invariant
                    i <= entries@.len(),
                    *record == YamlNode::Hash(*entries),
                    entry_value(entries@, key@) == entry_value(entries@.skip(i as int), key@),
                decreases entries@.len() - i,
            {
                let entry = &entries[i];
                proof {
                    assert(entries@.skip(i as int)[0] == *entry);
                    assert(entries@.skip(i as int).drop_first() =~= entries@.skip(i + 1));
                }
                if let YamlNode::Str(k) = &entry.0 {
                    if k.eq(key) {
                        return match &entry.1 {
                            YamlNode::Str(v) => Some(v.clone()),
                            _ => None,
                        };
                    }
                }
                i = i + 1;
            }
            None
        },
        _ => None,
    }
}

/// The descriptor that an entry of the index list gives.
fn record_of(record: &YamlNode) -> (r: Option<PluginDescriptor>)
    ensures
        match r {
            Some(p) => record_info(*record) == Some(p@),
            None => record_info(*record) is None,
        },
{
    let name = field_of(record, &String::from_str("name"));
    let version = field_of(record, &String::from_str("version"));
    let url = field_of(record, &String::from_str("url"));
    match (name, version, url) {
        (Some(name), Some(version), Some(url)) => Some(PluginDescriptor { name, version, url }),
        _ => None,
    }
}

/// The index that YAML documents give: each entry of the list that is the
/// first document, as a descriptor.
pub fn parse_index_documents(docs: &Vec<YamlNode>) -> (r: Result<Vec<PluginDescriptor>, IndexError>)
    ensures
        result_view(r) == documents_index(docs@),
{
    if docs.len() == 0 {
        return Err(IndexError::NoDocument);
    }
    let items = match &docs[0] {
        YamlNode::Array(items) => items,
        _ => return Err(IndexError::NotAList),
    };
    let mut out: Vec<PluginDescriptor> = Vec::new();
    let mut i: usize = 0;
    assert(items@.take(0) =~= seq![]);
    assert(infos(out@) =~= seq![]);
    while i < items.len()
        invariant
            i <= items@.len(),
            documents_index(docs@) == records_info(items@),
            records_info(items@.take(i as int)) == Ok::<Seq<PluginInfo>, IndexError>(infos(out@)),
        decreases items@.len() - i,
    {
        proof {
            assert(items@.take(i + 1).drop_last() =~= items@.take(i as int));
            assert(items@.take(i + 1).last() == items@[i as int]);
        }
        match record_of(&items[i]) {
            Some(p) => {
                let ghost before = out@;
                let ghost info = p@;
                out.push(p);
                proof {
                    assert(infos(out@) =~= infos(before).push(info));
                }
            },
            None => {
                proof {
                    assert(records_info(items@.take(i + 1)) == Err::<Seq<PluginInfo>, IndexError>(
                        IndexError::BadRecord(i),
                    ));
                    lemma_records_error_stays(items@, i + 1);
                }
                return Err(IndexError::BadRecord(i));
            },
        }
        i = i + 1;
    }
    proof {
        assert(items@.take(items@.len() as int) =~= items@);
    }
    Ok(out)
}

/// Whether the loader may be given the text: `None` when it may, else why not.
pub fn check_bounds(text: &str) -> (r: Option<IndexError>)
    ensures
        r == bounds_error(text.spec_bytes()),
{
    let bytes = text.as_bytes();
    let ghost b = text.spec_bytes();
    // the length of the line read so far
    let mut run: usize = 0;
    let mut too_long = false;
    let mut alias = false;
    let mut i: usize = 0;
    while i < bytes.len()
        invariant
            bytes@ == b,
            i <= b.len(),
            run == line_run(b, i as int),
            run <= i,
            too_long == exists|j: int| 0 <= j <= i && #[trigger] line_run(b, j) > MAX_LINE_BYTES,
            alias == exists|k: int| 0 <= k < i && b[k] == 42u8,
        decreases b.len() - i,
    {
        if bytes[i] == 10u8 {
            run = 0;
        } else {
            run = run + 1;
        }
        if run > MAX_LINE_BYTES {
            too_long = true;
        }
        if bytes[i] == 42u8 {
            alias = true;
        }
        i = i + 1;
        proof {
            assert(run == line_run(b, i as int));
            if alias && !(exists|k: int| 0 <= k < i - 1 && b[k] == 42u8) {
                assert(b[i - 1] == 42u8);
            }
        }
    }
    if too_long {
        Some(IndexError::LineTooLong)
    } else if alias {
        Some(IndexError::AliasMark)
    } else {
        None
    }
}

/// The index that the text of an index file gives. Text with a line longer
/// than `MAX_LINE_BYTES` bytes, or with a `*`, is refused before it is read
/// as YAML.
pub fn parse_index(text: &str) -> (r: Result<Vec<PluginDescriptor>, IndexError>)
    ensures
        result_view(r) == text_index(text),
{
    if let Some(e) = check_bounds(text) {
        return Err(e);
    }
    match load_documents(text) {
        Ok(docs) => parse_index_documents(&docs),
        Err(_) => Err(IndexError::Syntax),
    }
}

/// What `str::to_lowercase` makes of a string.
pub uninterp spec fn lowercase_of(s: Seq<char>) -> Seq<char>;

/// Relies on `str::to_lowercase`: the result depends on the characters alone.
#[verifier::external_body]
fn lowercase(s: &str) -> (r: String)
    ensures
        r@ == lowercase_of(s@),
{
    s.to_lowercase()
}

/// The position of the first of `names` that is `key`.
pub open spec fn first_match(names: Seq<Seq<char>>, key: Seq<char>) -> Option<int>
    decreases names.len(),
{
    if names.len() == 0 {
        None
    } else {
        match first_match(names.drop_last(), key) {
            Some(i) => Some(i),
            None => if names.last() == key {
                Some(names.len() - 1)
            } else {
                None
            },
        }
    }
}

pub open spec fn names_of(index: Seq<PluginDescriptor>) -> Seq<Seq<char>> {
    index.map_values(|p: PluginDescriptor| p.name@)
}

pub open spec fn views(strings: Seq<String>) -> Seq<Seq<char>> {
    strings.map_values(|s: String| s@)
}

pub open spec fn lowercased(names: Seq<Seq<char>>) -> Seq<Seq<char>> {
    names.map_values(|n: Seq<char>| lowercase_of(n))
}

/// The plug-in that an identifier picks, given the names of the index and the
/// identifier both as they are and in a folded case: the first whose name is
/// the identifier, else the first whose folded name is the folded identifier.
pub open spec fn pick(
    names: Seq<Seq<char>>,
    folded_names: Seq<Seq<char>>,
    identifier: Seq<char>,
    folded_identifier: Seq<char>,
) -> Option<int> {
    match first_match(names, identifier) {
        Some(i) => Some(i),
        None => first_match(folded_names, folded_identifier),
    }
}

/// The plug-in of `index` that `identifier` names: matched exactly first, and
/// without regard to case after that.
pub open spec fn resolution(index: Seq<PluginDescriptor>, identifier: Seq<char>) -> Option<int> {
    pick(names_of(index), lowercased(names_of(index)), identifier, lowercase_of(identifier))
}

/// `first_match` finds an element exactly when there is one equal to the key,
/// and then the first one.
proof fn lemma_first_match(names: Seq<Seq<char>>, key: Seq<char>)
    ensures
        match first_match(names, key) {
            Some(i) => 0 <= i < names.len() && names[i] == key && forall|j: int|
                0 <= j < i ==> names[j] != key,
            None => forall|j: int| 0 <= j < names.len() ==> names[j] != key,
        },
    decreases names.len(),
{
    if names.len() > 0 {
        lemma_first_match(names.drop_last(), key);
        assert forall|j: int| 0 <= j < names.len() - 1 implies names[j] == names.drop_last()[j] by {
        }
    }
}

/// Where the first `i` names hold no match, the next one decides.
proof fn lemma_first_match_step(names: Seq<Seq<char>>, key: Seq<char>, i: int)
    requires
        0 <= i < names.len(),
        first_match(names.take(i), key) is None,
    ensures
        first_match(names.take(i + 1), key) == (if names[i] == key {
            Some(i)
        } else {
            None::<int>
        }),
{
    assert(names.take(i + 1).drop_last() =~= names.take(i));
}

/// A first match among the first `i` names is the first match of them all.
proof fn lemma_first_match_prefix(names: Seq<Seq<char>>, key: Seq<char>, i: int)
    requires
        0 <= i <= names.len(),
        first_match(names.take(i), key) is Some,
    ensures
        first_match(names, key) == first_match(names.take(i), key),
    decreases names.len() - i,
{
    if i == names.len() {
        assert(names.take(i) =~= names);
    } else {
        assert(names.take(i + 1).drop_last() =~= names.take(i));
        lemma_first_match_prefix(names, key, i + 1);
    }
}

/// The position of the first name equal to `key`, all names compared in turn.
fn find_name(names: &Vec<String>, key: &String) -> (r: Option<usize>)
    ensures
        match r {
            Some(i) => first_match(views(names@), key@) == Some(i as int),
            None => first_match(views(names@), key@) is None,
        },
{
    let ghost all = views(names@);
    let mut i: usize = 0;
    while i < names.len()
        invariant
            i <= names@.len(),
            all == views(names@),
            first_match(all.take(i as int), key@) is None,
        decreases names@.len() - i,
    {
        proof {
            lemma_first_match_step(all, key@, i as int);
        }
        if names[i].eq(key) {
            proof {
                lemma_first_match_prefix(all, key@, i + 1);
            }
            return Some(i);
        }
        i = i + 1;
    }
    proof {
        assert(all.take(i as int) =~= all);
    }
    None
}

/// The plug-in of `index` that `identifier` picks, given the names of the
/// index and the identifier in a folded case, with the names in the order of
/// the index.
pub fn find_plugin(
    index: &Vec<PluginDescriptor>,
    identifier: &str,
    folded_names: &Vec<String>,
    folded_identifier: &str,
) -> (r: Option<usize>)
    requires
        folded_names@.len() == index@.len(),
    ensures
        match r {
            Some(i) => pick(
                names_of(index@),
                views(folded_names@),
                identifier@,
                folded_identifier@,
            ) == Some(i as int),
            None => pick(
                names_of(index@),
                views(folded_names@),
                identifier@,
                folded_identifier@,
            ) is None,
        },
{
    let mut names: Vec<String> = Vec::new();
    let mut i: usize = 0;
    assert(views(names@) =~= names_of(index@).take(0));
    while i < index.len()
        invariant
            i <= index@.len(),
            views(names@) == names_of(index@).take(i as int),
        decreases index@.len() - i,
    {
        let name = index[i].name.clone();
        assert(name@ == names_of(index@)[i as int]);
        let ghost before = names@;
        names.push(name);
        proof {
            assert(views(names@) =~= views(before).push(name@));
            assert(views(names@) =~= names_of(index@).take(i + 1));
        }
        i = i + 1;
    }
    proof {
        assert(names_of(index@).take(index@.len() as int) =~= names_of(index@));
    }
    match find_name(&names, &String::from_str(identifier)) {
        Some(i) => Some(i),
        None => find_name(folded_names, &String::from_str(folded_identifier)),
    }
}

/// The plug-in of `index` that `identifier` names: the first whose name is the
/// identifier, else the first whose name is the identifier but for case; the
/// error `NotFound` where there is none.
pub fn resolve(index: &Vec<PluginDescriptor>, identifier: &str) -> (r: Result<usize, CommandError>)
    ensures
        match r {
            Ok(i) => resolution(index@, identifier@) == Some(i as int),
            Err(e) => e == CommandError::NotFound && resolution(index@, identifier@) is None,
        },
{
    let mut folded: Vec<String> = Vec::new();
    let mut i: usize = 0;
    assert(views(folded@) =~= lowercased(names_of(index@)).take(0));
    while i < index.len()
        invariant
            i <= index@.len(),
            views(folded@) == lowercased(names_of(index@)).take(i as int),
        decreases index@.len() - i,
    {
        let name = lowercase(index[i].name.as_str());
        assert(name@ == lowercased(names_of(index@))[i as int]);
        let ghost before = folded@;
        folded.push(name);
        proof {
            assert(views(folded@) =~= views(before).push(name@));
            assert(views(folded@) =~= lowercased(names_of(index@)).take(i + 1));
        }
        i = i + 1;
    }
    proof {
        assert(lowercased(names_of(index@)).take(index@.len() as int) =~= lowercased(
            names_of(index@),
        ));
    }
    match find_plugin(index, identifier, &folded, lowercase(identifier).as_str()) {
        Some(i) => Ok(i),
        None => Err(CommandError::NotFound),
    }
}

/// An identifier that matches no name of the index, not even without regard
/// to case, resolves to no plug-in.
pub proof fn lemma_unknown_name_not_found(index: Seq<PluginDescriptor>, identifier: Seq<char>)
    requires
        forall|i: int|
            0 <= i < index.len() ==> lowercase_of(#[trigger] index[i].name@) != lowercase_of(
                identifier,
            ),
    ensures
        resolution(index, identifier) is None,
{
    let names = names_of(index);
    lemma_first_match(names, identifier);
    lemma_first_match(lowercased(names), lowercase_of(identifier));
    assert forall|j: int| 0 <= j < names.len() implies names[j] != identifier by {
        assert(names[j] == index[j].name@);
    }
    assert forall|j: int| 0 <= j < names.len() implies lowercased(names)[j] != lowercase_of(
        identifier,
    ) by {
        assert(names[j] == index[j].name@);
    }
}

} // verus!
