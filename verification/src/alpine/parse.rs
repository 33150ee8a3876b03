//! Reading `APKINDEX` files.
//!
//! An index is a list of stanzas parted by empty lines. Each line of a
//! stanza is a field: a letter code, a colon and a value. `P` is the name of
//! the package, `V` its version, `A` its architecture, `D` its dependencies
//! and `p` what it provides; other fields are passed over.

use crate::alpine::index::{AlpineIndex, Dependency as IndexDependency, DependencyModel, HashedRange};
use crate::alpine::version::AlpineVersion;
use crate::constraints::{lookup, position, position_from, put};
use crate::index::packages_with;
use crate::range::{
    full_range, higher_range, lower_range, singleton_range, strictly_higher_range,
    strictly_lower_range, Range, SegmentModel,
};
use crate::text::{
    chars_of, find_char, find_from, is_blank, lines_of, parts_of, same_chars, slice_of,
    split_parts, split_pieces, split_words, string_of, trim_chars, trimmed, words_of,
};
use vstd::prelude::*;

verus! {

/// A package as an `APKINDEX` stanza describes it.
#[derive(Clone, Debug, PartialEq)]
pub struct Package {
    pub package: String,
    pub version: String,
    pub arch: Option<String>,
    pub depends: Vec<Dependency>,
    pub provides: Vec<Dependency>,
}

/// One item of a `D` or `p` field.
#[derive(Clone, Debug, PartialEq)]
pub struct Dependency {
    pub package: String,
    pub version_constraint: Option<VersionConstraint>,
    pub arch: Option<Vec<String>>,
}

/// The versions that a dependency accepts: those in `relation` to `version`.
#[derive(Clone, Debug, PartialEq)]
pub struct VersionConstraint {
    pub relation: VersionRelation,
    pub version: String,
}

/// How a version has to compare with the one that a dependency names.
#[derive(Clone, Copy, Debug, PartialEq, Eq, Structural)]
pub enum VersionRelation {
    Less,
    LessOrEqual,
    Equal,
    GreaterOrEqual,
    Greater,
}

/// Why a stanza could not be read.
#[derive(Clone, Debug, PartialEq, Eq)]
pub enum ParseError {
    /// A line that is not blank holds no colon.
    LineWithoutColon(String),
    /// The stanza has no `P` field.
    MissingPackage,
    /// The stanza has no `V` field.
    MissingVersion,
    /// The text is none of `<`, `<=`, `=`, `>=` and `>`.
    UnknownRelation(String),
}

/// What a [`ParseError`] stands for.
pub enum ParseErrorModel {
    LineWithoutColon(Seq<char>),
    MissingPackage,
    MissingVersion,
    UnknownRelation(Seq<char>),
}

impl View for ParseError {
    type V = ParseErrorModel;

    open spec fn view(&self) -> ParseErrorModel {
        match self {
            ParseError::LineWithoutColon(line) => ParseErrorModel::LineWithoutColon(line@),
            ParseError::MissingPackage => ParseErrorModel::MissingPackage,
            ParseError::MissingVersion => ParseErrorModel::MissingVersion,
            ParseError::UnknownRelation(text) => ParseErrorModel::UnknownRelation(text@),
        }
    }
}

/// What a [`VersionConstraint`] stands for.
pub struct ConstraintModel {
    pub relation: VersionRelation,
    pub version: Seq<char>,
}

/// What a [`Dependency`] stands for.
pub struct ItemModel {
    pub package: Seq<char>,
    pub version_constraint: Option<ConstraintModel>,
    pub arch: Option<Seq<Seq<char>>>,
}

/// What a [`Package`] stands for.
pub struct PackageModel {
    pub package: Seq<char>,
    pub version: Seq<char>,
    pub arch: Option<Seq<char>>,
    pub depends: Seq<ItemModel>,
    pub provides: Seq<ItemModel>,
}

impl View for VersionConstraint {
    type V = ConstraintModel;

    open spec fn view(&self) -> ConstraintModel {
        ConstraintModel { relation: self.relation, version: self.version@ }
    }
}

impl View for Dependency {
    type V = ItemModel;

    open spec fn view(&self) -> ItemModel {
        ItemModel {
            package: self.package@,
            version_constraint: match self.version_constraint {
                Some(c) => Some(c@),
                None => None,
            },
            arch: match self.arch {
                Some(a) => Some(crate::text::texts(a@)),
                None => None,
            },
        }
    }
}

/// The models of a list of items.
pub open spec fn item_models(items: Seq<Dependency>) -> Seq<ItemModel> {
    items.map_values(|d: Dependency| d@)
}

impl View for Package {
    type V = PackageModel;

    open spec fn view(&self) -> PackageModel {
        PackageModel {
            package: self.package@,
            version: self.version@,
            arch: match self.arch {
                Some(a) => Some(a@),
                None => None,
            },
            depends: item_models(self.depends@),
            provides: item_models(self.provides@),
        }
    }
}

/// The relation that a text spells, whitespace at its ends apart.
pub open spec fn relation_of(s: Seq<char>) -> Option<VersionRelation> {
    let t = trimmed(s);
    if t == "<"@ {
        Some(VersionRelation::Less)
    } else if t == "<="@ {
        Some(VersionRelation::LessOrEqual)
    } else if t == "="@ {
        Some(VersionRelation::Equal)
    } else if t == ">="@ {
        Some(VersionRelation::GreaterOrEqual)
    } else if t == ">"@ {
        Some(VersionRelation::Greater)
    } else {
        None
    }
}

impl VersionRelation {
    /// Reads a relation.
    pub fn from_str(s: &str) -> (r: Result<VersionRelation, ParseError>)
        ensures
            match r {
                Ok(relation) => relation_of(s@) == Some(relation),
                Err(e) => relation_of(s@) is None && e@ == ParseErrorModel::UnknownRelation(s@),
            },
    {
        let t = trim_chars(&chars_of(s));
        if same_chars(&t, &chars_of("<")) {
            Ok(VersionRelation::Less)
        } else if same_chars(&t, &chars_of("<=")) {
            Ok(VersionRelation::LessOrEqual)
        } else if same_chars(&t, &chars_of("=")) {
            Ok(VersionRelation::Equal)
        } else if same_chars(&t, &chars_of(">=")) {
            Ok(VersionRelation::GreaterOrEqual)
        } else if same_chars(&t, &chars_of(">")) {
            Ok(VersionRelation::Greater)
        } else {
            Err(ParseError::UnknownRelation(s.to_string()))
        }
    }

    /// The versions that stand in this relation to `v`.
    pub open spec fn range_of(self, v: Seq<char>) -> Seq<SegmentModel> {
        match self {
            VersionRelation::Equal => singleton_range(v),
            VersionRelation::GreaterOrEqual => higher_range(v),
            VersionRelation::Greater => strictly_higher_range(v),
            VersionRelation::Less => strictly_lower_range(v),
            VersionRelation::LessOrEqual => lower_range(v),
        }
    }
}

/// The character is one that operators are written with.
pub open spec fn is_operator_char(c: char) -> bool {
    c == '<' || c == '>' || c == '='
}

/// Number of characters from position `i` on that stand before the first
/// operator.
pub open spec fn name_len(s: Seq<char>, i: int) -> nat
    decreases s.len() - i,
{
    if 0 <= i < s.len() && !is_operator_char(s[i]) {
        1 + name_len(s, i + 1)
    } else {
        0
    }
}

/// A name never reaches past the end of the text.
pub proof fn lemma_name_len_bound(s: Seq<char>, i: int)
    requires
        0 <= i <= s.len(),
    ensures
        i + name_len(s, i) <= s.len(),
    decreases s.len() - i,
{
    if i < s.len() && !is_operator_char(s[i]) {
        lemma_name_len_bound(s, i + 1);
    }
}

/// The operator that starts at position `at` of `s`, with the number of its
/// characters: `>=` and `<=` are taken whole.
pub open spec fn operator_at(s: Seq<char>, at: int) -> (VersionRelation, int) {
    let followed = at + 1 < s.len() && s[at + 1] == '=';
    if s[at] == '>' {
        if followed {
            (VersionRelation::GreaterOrEqual, 2)
        } else {
            (VersionRelation::Greater, 1)
        }
    } else if s[at] == '<' {
        if followed {
            (VersionRelation::LessOrEqual, 2)
        } else {
            (VersionRelation::Less, 1)
        }
    } else {
        (VersionRelation::Equal, 1)
    }
}

/// The item that the text `s` spells: the name ends where the first operator
/// begins, the operator is one of `<`, `<=`, `=`, `>=` and `>`, and the
/// version is what follows the operator. A text without operator is a name.
/// No item names architectures.
pub open spec fn item_of(s: Seq<char>) -> ItemModel {
    let at = name_len(s, 0) as int;
    if at >= s.len() {
        ItemModel { package: s, version_constraint: None, arch: None }
    } else {
        let operator = operator_at(s, at);
        ItemModel {
            package: s.subrange(0, at),
            version_constraint: Some(
                ConstraintModel {
                    relation: operator.0,
                    version: s.subrange(at + operator.1, s.len() as int),
                },
            ),
            arch: None,
        }
    }
}

/// Reads one item of a dependency field from its characters.
fn item_from(chars: &Vec<char>) -> (d: Dependency)
    ensures
        d@ == item_of(chars@),
{
    let n = chars.len();
    let mut at: usize = 0;
    while at < n && chars[at] != '<' && chars[at] != '>' && chars[at] != '='
        invariant
            at <= n,
            n == chars.len(),
            name_len(chars@, 0) == at + name_len(chars@, at as int),
        decreases n - at,
    {
        at = at + 1;
    }
    if at >= n {
        assert(chars@.subrange(0, chars@.len() as int) == chars@);
        return Dependency {
            package: string_of(chars, 0, n),
            version_constraint: None,
            arch: None,
        };
    }
    let followed = at + 1 < n && chars[at + 1] == '=';
    let relation = if chars[at] == '>' {
        if followed {
            VersionRelation::GreaterOrEqual
        } else {
            VersionRelation::Greater
        }
    } else if chars[at] == '<' {
        if followed {
            VersionRelation::LessOrEqual
        } else {
            VersionRelation::Less
        }
    } else {
        VersionRelation::Equal
    };
    let width: usize = if followed && chars[at] != '=' {
        2
    } else {
        1
    };
    Dependency {
        package: string_of(chars, 0, at),
        version_constraint: Some(
            VersionConstraint { relation, version: string_of(chars, at + width, n) },
        ),
        arch: None,
    }
}

/// Reads one item of a dependency field: a name, or a name, an operator and a
/// version, as in `libc>=1.2.3`. Every text is an item.
pub fn parse_alpine_dependency_item(s: &str) -> (r: Result<Dependency, ParseError>)
    ensures
        r matches Ok(d) && d@ == item_of(s@),
{
    Ok(item_from(&chars_of(s)))
}

/// The fields of a stanza: codes with their values.
pub type Fields = Seq<(Seq<char>, Seq<char>)>;

/// The fields that the lines `lines[i..]` add to `fields`, or the first line
/// among them that is not blank and holds no colon. A later field replaces an
/// earlier one of the same code.
pub open spec fn fields_from(lines: Seq<Seq<char>>, i: int, fields: Fields) -> Result<
    Fields,
    Seq<char>,
>
    decreases lines.len() - i,
{
    if i < 0 || i >= lines.len() {
        Ok(fields)
    } else if is_blank(lines[i]) {
        fields_from(lines, i + 1, fields)
    } else {
        match find_from(lines[i], ':', 0) {
            Some(p) => fields_from(
                lines,
                i + 1,
                put(
                    fields,
                    trimmed(lines[i].subrange(0, p)),
                    trimmed(lines[i].subrange(p + 1, lines[i].len() as int)),
                ),
            ),
            None => Err(lines[i]),
        }
    }
}

/// The items of a field value: one for each of its words.
pub open spec fn items_of(value: Option<Seq<char>>) -> Seq<ItemModel> {
    match value {
        Some(v) => words_of(v).map_values(|w: Seq<char>| item_of(w)),
        None => Seq::empty(),
    }
}

/// The package that a stanza describes.
pub open spec fn package_of(stanza: Seq<char>) -> Result<PackageModel, ParseErrorModel> {
    match fields_from(lines_of(stanza), 0, Seq::empty()) {
        Err(line) => Err(ParseErrorModel::LineWithoutColon(line)),
        Ok(fields) => match (lookup(fields, "P"@), lookup(fields, "V"@)) {
            (None, _) => Err(ParseErrorModel::MissingPackage),
            (Some(_), None) => Err(ParseErrorModel::MissingVersion),
            (Some(package), Some(version)) => Ok(
                PackageModel {
                    package,
                    version,
                    arch: lookup(fields, "A"@),
                    depends: items_of(lookup(fields, "D"@)),
                    provides: items_of(lookup(fields, "p"@)),
                },
            ),
        },
    }
}

/// The models of a list of fields.
pub open spec fn field_models(fields: Seq<(Vec<char>, Vec<char>)>) -> Fields {
    fields.map_values(|f: (Vec<char>, Vec<char>)| (f.0@, f.1@))
}

/// Finds the field with the code `key`.
fn find_field(fields: &Vec<(Vec<char>, Vec<char>)>, key: &Vec<char>) -> (r: Option<usize>)
    ensures
        match r {
            Some(p) => position(field_models(fields@), key@) == Some(p as int) && p
                < fields.len(),
            None => position(field_models(fields@), key@) is None,
        },
{
    let ghost m = field_models(fields@);
    let mut i: usize = 0;
    while i < fields.len()
        invariant
            i <= fields.len(),
            m == field_models(fields@),
            position(m, key@) == position_from(m, key@, i as int),
        decreases fields.len() - i,
    {
        assert(m[i as int].0 == fields@[i as int].0@);
        if same_chars(&fields[i].0, key) {
            return Some(i);
        }
        i = i + 1;
    }
    None
}

/// The value of the field with the code `code`.
fn field_value<'a>(fields: &'a Vec<(Vec<char>, Vec<char>)>, code: &str) -> (r: Option<
    &'a Vec<char>,
>)
    ensures
        match r {
            Some(v) => lookup(field_models(fields@), code@) == Some(v@),
            None => lookup(field_models(fields@), code@) is None,
        },
{
    let key = chars_of(code);
    match find_field(fields, &key) {
        Some(p) => {
            assert(field_models(fields@)[p as int].1 == fields@[p as int].1@);
            Some(&fields[p].1)
        },
        None => None,
    }
}

/// The items of a field value.
fn parse_items(value: Option<&Vec<char>>) -> (r: Vec<Dependency>)
    ensures
        item_models(r@) == items_of(
            match value {
                Some(v) => Some(v@),
                None => None,
            },
        ),
{
    let mut out: Vec<Dependency> = Vec::new();
    match value {
        Some(v) => {
            let words = split_words(v);
            let ghost texts = words_of(v@);
            let mut i: usize = 0;
            while i < words.len()
                invariant
                    i <= words.len(),
                    texts == words@.map_values(|p: Vec<char>| p@),
                    out@.len() == i,
                    forall|j: int| 0 <= j < i ==> out@[j]@ == item_of(texts[j]),
                decreases words.len() - i,
            {
                assert(texts[i as int] == words@[i as int]@);
                out.push(item_from(&words[i]));
                i = i + 1;
            }
            assert(item_models(out@) =~= texts.map_values(|w: Seq<char>| item_of(w)));
        },
        None => {
            assert(item_models(out@) =~= Seq::empty());
        },
    }
    out
}

/// The string that `chars` spells.
fn text_of(chars: &Vec<char>) -> (s: String)
    ensures
        s@ == chars@,
{
    assert(chars@.subrange(0, chars@.len() as int) == chars@);
    string_of(chars, 0, chars.len())
}

/// The model of what reading a stanza gave.
pub open spec fn package_result(r: Result<Package, ParseError>) -> Result<
    PackageModel,
    ParseErrorModel,
> {
    match r {
        Ok(p) => Ok(p@),
        Err(e) => Err(e@),
    }
}

/// Reads one stanza of an `APKINDEX` file.
pub fn parse_alpine_package(stanza: &str) -> (r: Result<Package, ParseError>)
    ensures
        package_result(r) == package_of(stanza@),
{
    let chars = chars_of(stanza);
    let lines = split_pieces(&chars, '\n');
    let ghost texts = lines_of(stanza@);
    let mut fields: Vec<(Vec<char>, Vec<char>)> = Vec::new();
    assert(field_models(fields@) =~= Seq::empty());
    let mut i: usize = 0;
    while i < lines.len()
        invariant
            i <= lines.len(),
            texts == lines@.map_values(|p: Vec<char>| p@),
            texts == lines_of(stanza@),
            fields_from(texts, 0, Seq::empty()) == fields_from(
                texts,
                i as int,
                field_models(fields@),
            ),
        decreases lines.len() - i,
    {
        let line = &lines[i];
        assert(texts[i as int] == line@);
        if trim_chars(line).len() != 0 {
            match find_char(line, ':') {
                Some(pos) => {
                    let key = trim_chars(&slice_of(line, 0, pos));
                    let value = trim_chars(&slice_of(line, pos + 1, line.len()));
                    let ghost before = field_models(fields@);
                    match find_field(&fields, &key) {
                        Some(p) => {
                            fields.set(p, (key, value));
                            assert(field_models(fields@) =~= before.update(
                                p as int,
                                (key@, value@),
                            ));
                        },
                        None => {
                            fields.push((key, value));
                            assert(field_models(fields@) =~= before.push((key@, value@)));
                        },
                    }
                },
                None => {
                    return Err(ParseError::LineWithoutColon(text_of(line)));
                },
            }
        }
        i = i + 1;
    }
    let package = match field_value(&fields, "P") {
        Some(v) => text_of(v),
        None => {
            return Err(ParseError::MissingPackage);
        },
    };
    let version = match field_value(&fields, "V") {
        Some(v) => text_of(v),
        None => {
            return Err(ParseError::MissingVersion);
        },
    };
    let arch = match field_value(&fields, "A") {
        Some(v) => Some(text_of(v)),
        None => None,
    };
    let depends = parse_items(field_value(&fields, "D"));
    let provides = parse_items(field_value(&fields, "p"));
    Ok(Package { package, version, arch, depends, provides })
}

/// The models of a list of packages.
pub open spec fn package_models(packages: Seq<Package>) -> Seq<PackageModel> {
    packages.map_values(|p: Package| p@)
}

/// The packages that the stanzas `stanzas[i..]` describe, after those in
/// `done`; blank stanzas are passed over, and the first stanza that cannot be
/// read ends the reading with its error.
pub open spec fn packages_from(stanzas: Seq<Seq<char>>, i: int, done: Seq<PackageModel>) -> Result<
    Seq<PackageModel>,
    ParseErrorModel,
>
    decreases stanzas.len() - i,
{
    if i < 0 || i >= stanzas.len() {
        Ok(done)
    } else if is_blank(stanzas[i]) {
        packages_from(stanzas, i + 1, done)
    } else {
        match package_of(stanzas[i]) {
            Ok(p) => packages_from(stanzas, i + 1, done.push(p)),
            Err(e) => Err(e),
        }
    }
}

/// The packages that the text of an `APKINDEX` file describes: one for each
/// of its stanzas, which empty lines part.
pub open spec fn index_packages(content: Seq<char>) -> Result<Seq<PackageModel>, ParseErrorModel> {
    packages_from(parts_of(content, "\n\n"@), 0, Seq::empty())
}

/// The model of what reading an index gave.
pub open spec fn packages_result(r: Result<Vec<Package>, ParseError>) -> Result<
    Seq<PackageModel>,
    ParseErrorModel,
> {
    match r {
        Ok(p) => Ok(package_models(p@)),
        Err(e) => Err(e@),
    }
}

/// Reads the text of an `APKINDEX` file.
pub fn parse_alpine_index(content: &str) -> (r: Result<Vec<Package>, ParseError>)
    ensures
        packages_result(r) == index_packages(content@),
{
    let chars = chars_of(content);
    let sep = chars_of("\n\n");
    proof {
        reveal_strlit("\n\n");
    }
    let stanzas = split_parts(&chars, &sep);
    let ghost texts = parts_of(content@, "\n\n"@);
    let mut packages: Vec<Package> = Vec::new();
    assert(package_models(packages@) =~= Seq::empty());
    let mut i: usize = 0;
    while i < stanzas.len()
        invariant
            i <= stanzas.len(),
            texts == stanzas@.map_values(|p: Vec<char>| p@),
            texts == parts_of(content@, "\n\n"@),
            index_packages(content@) == packages_from(texts, i as int, package_models(packages@)),
        decreases stanzas.len() - i,
    {
        assert(texts[i as int] == stanzas@[i as int]@);
        if trim_chars(&stanzas[i]).len() != 0 {
            let stanza = text_of(&stanzas[i]);
            let ghost before = package_models(packages@);
            match parse_alpine_package(stanza.as_str()) {
                Ok(p) => {
                    packages.push(p);
                    assert(package_models(packages@) =~= before.push(p@));
                },
                Err(e) => {
                    return Err(e);
                },
            }
        }
        i = i + 1;
    }
    Ok(packages)
}

/// The set of the versions that stand in the relation `relop` to `version`.
pub fn version_constraint_to_range(relop: &VersionRelation, version: AlpineVersion) -> (r: Range<
    AlpineVersion,
>)
    ensures
        r@ == relop.range_of(version@),
{
    match relop {
        VersionRelation::Equal => Range::singleton(version),
        VersionRelation::GreaterOrEqual => Range::higher_than(version),
        VersionRelation::Greater => Range::strictly_higher_than(version),
        VersionRelation::Less => Range::strictly_lower_than(version),
        VersionRelation::LessOrEqual => Range::lower_than(version),
    }
}

/// The dependency that an item of a field asks for: the versions that its
/// constraint admits, or any version where it has none.
pub open spec fn converted(item: ItemModel) -> DependencyModel {
    DependencyModel {
        name: item.package,
        range: match item.version_constraint {
            Some(c) => c.relation.range_of(c.version),
            None => full_range(),
        },
    }
}

/// Turns an item of a field into a dependency of the index.
pub fn convert_dependency(dep: &Dependency) -> (r: IndexDependency)
    ensures
        r@ == converted(dep@),
{
    let range = match &dep.version_constraint {
        Some(vc) => {
            let version = AlpineVersion(vc.version.clone());
            version_constraint_to_range(&vc.relation, version)
        },
        None => Range::full(),
    };
    IndexDependency { name: dep.package.clone(), range: HashedRange(range) }
}

/// Turns the items of a field into dependencies of the index.
pub fn convert_dependency_field(parsed: &Vec<Dependency>) -> (r: Vec<IndexDependency>)
    ensures
        r.deep_view() == item_models(parsed@).map_values(|i: ItemModel| converted(i)),
{
    let mut out: Vec<IndexDependency> = Vec::new();
    let mut i: usize = 0;
    while i < parsed.len()
        invariant
            i <= parsed.len(),
            out@.len() == i,
            forall|j: int| 0 <= j < i ==> out@[j]@ == converted(parsed@[j]@),
        decreases parsed.len() - i,
    {
        out.push(convert_dependency(&parsed[i]));
        i = i + 1;
    }
    assert(out.deep_view() =~= item_models(parsed@).map_values(|i: ItemModel| converted(i)));
    out
}

/// The contents of an index, as a model.
pub type Contents = Seq<(Seq<char>, Seq<(Seq<char>, Seq<DependencyModel>)>)>;

/// The contents after the names `provides[i..]` were recorded as provided by
/// `package`: each name becomes a package whose versions are named after the
/// packages that provide it, and that depends on its provider at exactly the
/// provider's version.
pub open spec fn with_provides(
    contents: Contents,
    package: PackageModel,
    i: int,
) -> Contents
    decreases package.provides.len() - i,
{
    if i < 0 || i >= package.provides.len() {
        contents
    } else {
        with_provides(
            packages_with::<AlpineVersion, Seq<DependencyModel>>(
                contents,
                package.provides[i].package,
                package.package,
                seq![
                    DependencyModel {
                        name: package.package,
                        range: singleton_range(package.version),
                    },
                ],
            ),
            package,
            i + 1,
        )
    }
}

/// The contents after `package` was recorded with its dependencies and with
/// what it provides.
pub open spec fn with_package(contents: Contents, package: PackageModel) -> Contents {
    with_provides(
        packages_with::<AlpineVersion, Seq<DependencyModel>>(
            contents,
            package.package,
            package.version,
            package.depends.map_values(|i: ItemModel| converted(i)),
        ),
        package,
        0,
    )
}

/// The contents after the packages `packages[i..]` were recorded in turn.
pub open spec fn with_packages(contents: Contents, packages: Seq<PackageModel>, i: int) -> Contents
    decreases packages.len() - i,
{
    if i < 0 || i >= packages.len() {
        contents
    } else {
        with_packages(with_package(contents, packages[i]), packages, i + 1)
    }
}

/// Records a package in the index: its dependencies under its own name and
/// version, and itself under each name that it provides.
pub fn add_package(index: &mut AlpineIndex, ap: &Package)
    ensures
        old(index).wf() ==> final(index).wf(),
        final(index).packages.contents() == with_package(old(index).packages.contents(), ap@),
        final(index).debug == old(index).debug,
        final(index).version_debug == old(index).version_debug,
{
    let dependencies = convert_dependency_field(&ap.depends);
    index.add_deps(ap.package.as_str(), AlpineVersion(ap.version.clone()), dependencies);
    let ghost target = with_package(old(index).packages.contents(), ap@);
    let mut k: usize = 0;
    while k < ap.provides.len()
        invariant
            k <= ap.provides.len(),
            old(index).wf() ==> index.wf(),
            index.debug == old(index).debug,
            index.version_debug == old(index).version_debug,
            target == with_provides(index.packages.contents(), ap@, k as int),
        decreases ap.provides.len() - k,
    {
        let mut provider: Vec<IndexDependency> = Vec::new();
        let entry = IndexDependency {
            name: ap.package.clone(),
            range: HashedRange(Range::singleton(AlpineVersion(ap.version.clone()))),
        };
        provider.push(entry);
        assert(provider.deep_view() =~= seq![entry@]);
        assert(ap@.provides[k as int] == ap.provides@[k as int]@);
        index.add_deps(
            ap.provides[k].package.as_str(),
            AlpineVersion(ap.package.clone()),
            provider,
        );
        k = k + 1;
    }
}

/// Builds the index of a list of packages.
pub fn build_index(packages: &Vec<Package>) -> (index: AlpineIndex)
    ensures
        index.wf(),
        index.packages.contents() == with_packages(Seq::empty(), package_models(packages@), 0),
{
    let ghost models = package_models(packages@);
    let mut index = AlpineIndex::new();
    let mut i: usize = 0;
    while i < packages.len()
        invariant
            i <= packages.len(),
            index.wf(),
            models == package_models(packages@),
            with_packages(Seq::empty(), models, 0) == with_packages(
                index.packages.contents(),
                models,
                i as int,
            ),
        decreases packages.len() - i,
    {
        assert(models[i as int] == packages@[i as int]@);
        add_package(&mut index, &packages[i]);
        i = i + 1;
    }
    index
}

/// Reads the text of an `APKINDEX` file and builds the index of its
/// packages.
pub fn create_index(content: &str) -> (r: Result<AlpineIndex, ParseError>)
    ensures
        match r {
            Ok(index) => {
                &&& index.wf()
                &&& index_packages(content@) is Ok
                &&& index.packages.contents() == with_packages(
                    Seq::empty(),
                    index_packages(content@)->Ok_0,
                    0,
                )
            },
            Err(e) => index_packages(content@) == Err::<Seq<PackageModel>, ParseErrorModel>(e@),
        },
{
    match parse_alpine_index(content) {
        Ok(packages) => Ok(build_index(&packages)),
        Err(e) => Err(e),
    }
}

} // verus!
