//! Rules written down in TOML: the values of a parsed document, and the
//! reading of rules out of them.

use vstd::prelude::*;
use vstd::string::StringExecFns;
use crate::extractor::{Extractor, ExtractorModel, ExtractorOptions, ExtractorOptionsModel};
use crate::matcher::{glob_regex, URLMatcher};
use crate::pattern::regex_compiles;
use crate::rule::{Rule, RuleModel};
use crate::rules::rules_view;
use crate::text::{decimal, from_chars, push_chars, push_decimal};
use crate::selector::{
    all_selector_kinds, place, selector_compiles, spec_all_selector_kinds, Query, Selector,
    SelectorKind, SelectorModel,
};

verus! {

/// A value of a TOML document.
#[derive(Debug, PartialEq, Eq)]
pub enum ConfigValue {
    String(String),
    Integer(i64),
    /// A number with a fraction; which one is not kept.
    Float,
    Boolean(bool),
    Datetime(String),
    Array(Vec<ConfigValue>),
    /// A table: its entries in the order of their keys, each key once.
    Table(Vec<Entry>),
}

/// A key of a table with its value.
#[derive(Debug, PartialEq, Eq)]
pub struct Entry {
    pub key: String,
    pub value: ConfigValue,
}

/// The mathematical value of a [`ConfigValue`].
pub enum ValueModel {
    String(Seq<char>),
    Integer(i64),
    Float,
    Boolean(bool),
    Datetime(Seq<char>),
    Array(Seq<ValueModel>),
    Table(Seq<EntryModel>),
}

/// The mathematical value of an [`Entry`].
pub struct EntryModel {
    pub key: Seq<char>,
    pub value: ValueModel,
}

/// The value of a TOML value.
pub open spec fn value_view(value: ConfigValue) -> ValueModel
    decreases value,
{
    match value {
        ConfigValue::String(text) => ValueModel::String(text@),
        ConfigValue::Integer(number) => ValueModel::Integer(number),
        ConfigValue::Float => ValueModel::Float,
        ConfigValue::Boolean(flag) => ValueModel::Boolean(flag),
        ConfigValue::Datetime(text) => ValueModel::Datetime(text@),
        ConfigValue::Array(items) => ValueModel::Array(
            Seq::new(
                items.len() as nat,
                |i: int|
                    if 0 <= i < items.len() {
                        value_view(items[i])
                    } else {
                        arbitrary()
                    },
            ),
        ),
        ConfigValue::Table(entries) => ValueModel::Table(
            Seq::new(
                entries.len() as nat,
                |i: int|
                    if 0 <= i < entries.len() {
                        EntryModel { key: entries[i].key@, value: value_view(entries[i].value) }
                    } else {
                        arbitrary()
                    },
            ),
        ),
    }
}

impl View for ConfigValue {
    type V = ValueModel;

    open spec fn view(&self) -> ValueModel {
        value_view(*self)
    }
}

impl View for Entry {
    type V = EntryModel;

    open spec fn view(&self) -> EntryModel {
        EntryModel { key: self.key@, value: self.value@ }
    }
}

/// The values of a sequence of TOML values, in order.
pub open spec fn values_view(values: Seq<ConfigValue>) -> Seq<ValueModel> {
    Seq::new(values.len(), |i: int| values[i]@)
}

/// The values of the entries of a table, in order.
pub open spec fn table_view(entries: Seq<Entry>) -> Seq<EntryModel> {
    Seq::new(entries.len(), |i: int| entries[i]@)
}

/// The value of an array holds the values of its items, and the value of a
/// table the values of its entries.
pub proof fn lemma_value_view(value: ConfigValue)
    ensures
        match value {
            ConfigValue::Array(items) => value@ == ValueModel::Array(values_view(items@)),
            ConfigValue::Table(entries) => value@ == ValueModel::Table(table_view(entries@)),
            _ => true,
        },
{
    match value {
        ConfigValue::Array(items) => {
            assert(value@->Array_0 =~= values_view(items@));
        },
        ConfigValue::Table(entries) => {
            assert(value@->Table_0 =~= table_view(entries@));
        },
        _ => {},
    }
}

/// One thing that the TOML parser found wrong, with the place where it
/// found it; lines and columns are counted from 0.
#[derive(Debug, PartialEq, Eq)]
pub struct ParserError {
    pub description: String,
    pub line: usize,
    pub column: usize,
}

/// The mathematical value of a [`ParserError`].
pub struct ParserErrorModel {
    pub description: Seq<char>,
    pub line: usize,
    pub column: usize,
}

impl View for ParserError {
    type V = ParserErrorModel;

    open spec fn view(&self) -> ParserErrorModel {
        ParserErrorModel { description: self.description@, line: self.line, column: self.column }
    }
}

/// The values of a sequence of parser errors, in order.
pub open spec fn parser_errors_view(errors: Seq<ParserError>) -> Seq<ParserErrorModel> {
    Seq::new(errors.len(), |i: int| errors[i]@)
}

/// What the TOML parser makes of `source`: the root table of the
/// document, or what it found wrong.
pub uninterp spec fn toml_document(source: Seq<char>) -> Result<Seq<EntryModel>, Seq<ParserErrorModel>>;

/// Tells the variants of a `toml::Value` apart and moves what each holds
/// into the variant of the same name; of a float nothing is kept.
#[verifier::external_body]
fn convert_value(value: &toml::Value) -> (converted: ConfigValue) {
    match value {
        toml::Value::String(text) => ConfigValue::String(text.clone()),
        toml::Value::Integer(number) => ConfigValue::Integer(*number),
        toml::Value::Float(_) => ConfigValue::Float,
        toml::Value::Boolean(flag) => ConfigValue::Boolean(*flag),
        toml::Value::Datetime(text) => ConfigValue::Datetime(text.clone()),
        toml::Value::Array(items) => ConfigValue::Array(items.iter().map(convert_value).collect()),
        toml::Value::Table(table) => ConfigValue::Table(convert_table(table)),
    }
}

/// The entries of a `toml::Table`, in the order of their keys, each with
/// its value converted.
#[verifier::external_body]
fn convert_table(table: &toml::Table) -> (entries: Vec<Entry>) {
    table.iter().map(|(key, value)| Entry { key: key.clone(), value: convert_value(value) }).collect()
}

/// `toml::Parser::parse`: the root table of the document, converted; or
/// the errors of the parser, each with its description and with the line
/// and column that `toml::Parser::to_linecol` gives for its start.
#[verifier::external_body]
fn toml_parse(source: &str) -> (parsed: Result<Vec<Entry>, Vec<ParserError>>)
    ensures
        match parsed {
            Ok(entries) => toml_document(source@) == Ok::<Seq<EntryModel>, Seq<ParserErrorModel>>(
                table_view(entries@),
            ),
            Err(errors) => toml_document(source@) == Err::<Seq<EntryModel>, Seq<ParserErrorModel>>(
                parser_errors_view(errors@),
            ),
        },
{
    let mut parser = toml::Parser::new(source);
    match parser.parse() {
        Some(table) => Ok(convert_table(&table)),
        None => Err(
            parser.errors.iter().map(
                |error| {
                    let (line, column) = parser.to_linecol(error.lo);
                    ParserError { description: error.desc.clone(), line, column }
                },
            ).collect(),
        ),
    }
}

/// Why no rules were read.
#[derive(Debug, PartialEq, Eq)]
pub enum Error {
    /// The text is no TOML document.
    ParserErrors(Vec<ParserError>),
    /// The document does not have the shape of a list of rules.
    FormatError(String),
    /// A query is no valid list of CSS selectors.
    SelectorParserError,
    /// A glob gives a regular expression that the compiler refuses; with
    /// what the compiler said.
    PatternError(String),
}

/// The mathematical value of an [`Error`]; what the compiler said of a
/// pattern is not part of it.
pub enum ErrorModel {
    ParserErrors(Seq<ParserErrorModel>),
    FormatError(Seq<char>),
    SelectorParserError,
    PatternError,
}

impl View for Error {
    type V = ErrorModel;

    open spec fn view(&self) -> ErrorModel {
        match self {
            Error::ParserErrors(errors) => ErrorModel::ParserErrors(parser_errors_view(errors@)),
            Error::FormatError(reason) => ErrorModel::FormatError(reason@),
            Error::SelectorParserError => ErrorModel::SelectorParserError,
            Error::PatternError(_) => ErrorModel::PatternError,
        }
    }
}

/// The value under `key` in `table`: that of the first entry with this
/// key.
pub open spec fn lookup(table: Seq<EntryModel>, key: Seq<char>) -> Option<ValueModel>
    decreases table.len(),
{
    if table.len() == 0 {
        None
    } else if table[0].key == key {
        Some(table[0].value)
    } else {
        lookup(table.drop_first(), key)
    }
}

/// The string under `name` in `table`, if there is an entry of this name;
/// an entry that holds no string is an error.
pub open spec fn string_opt(table: Seq<EntryModel>, name: Seq<char>) -> Result<Option<Seq<char>>, ErrorModel> {
    match lookup(table, name) {
        None => Ok(None),
        Some(ValueModel::String(text)) => Ok(Some(text)),
        Some(_) => Err(ErrorModel::FormatError("'"@ + name + "' should be a string"@)),
    }
}

/// `selectors` with the selector that `table` gives for the role `kind`
/// placed into it, where the table has an entry under the name of the
/// role.
pub open spec fn with_selector(
    kind: SelectorKind,
    table: Seq<EntryModel>,
    selectors: Seq<SelectorModel>,
) -> Result<Seq<SelectorModel>, ErrorModel> {
    match lookup(table, kind.spec_name()) {
        None => Ok(selectors),
        Some(ValueModel::String(query)) => if selector_compiles(query) {
            Ok(place(selectors, SelectorModel { kind, query, priority: 0 }))
        } else {
            Err(ErrorModel::SelectorParserError)
        },
        Some(_) => Err(ErrorModel::FormatError(kind.spec_name() + " should be a string"@)),
    }
}

/// The selectors that `table` gives for the first `upto` roles of
/// `kinds`, placed one after another; or the first error on the way.
pub open spec fn with_selectors(kinds: Seq<SelectorKind>, upto: int, table: Seq<EntryModel>) -> Result<
    Seq<SelectorModel>,
    ErrorModel,
>
    decreases upto,
{
    if upto <= 0 {
        Ok(Seq::empty())
    } else {
        match with_selectors(kinds, upto - 1, table) {
            Err(error) => Err(error),
            Ok(selectors) => with_selector(kinds[upto - 1], table, selectors),
        }
    }
}

/// What reading matchers has come to: the regular expressions of the
/// matchers made so far, and the error that ended the reading, if one
/// did.
pub struct Splat {
    pub matchers: Seq<Seq<char>>,
    pub error: Option<ErrorModel>,
}

/// The reading of the globs in `value`, a string or an array of such
/// values, after `found`: each string gives a matcher, in order, until one
/// gives a regular expression that does not compile or a value is neither
/// string nor array.
pub open spec fn splatted(value: ValueModel, name: Seq<char>, found: Seq<Seq<char>>) -> Splat
    decreases value, 0int,
{
    match value {
        ValueModel::String(glob) => if regex_compiles(glob_regex(glob)) {
            Splat { matchers: found.push(glob_regex(glob)), error: None }
        } else {
            Splat { matchers: found, error: Some(ErrorModel::PatternError) }
        },
        ValueModel::Array(items) => splatted_items(items, 0, name, found),
        _ => Splat {
            matchers: found,
            error: Some(ErrorModel::FormatError("'"@ + name + "' should be a string"@)),
        },
    }
}

/// The reading of the globs in the items of an array from the one at
/// `from` on.
pub open spec fn splatted_items(items: Seq<ValueModel>, from: int, name: Seq<char>, found: Seq<Seq<char>>) -> Splat
    decreases items, items.len() - from,
{
    if from < 0 || from >= items.len() {
        Splat { matchers: found, error: None }
    } else {
        let first = splatted(items[from], name, found);
        if first.error is Some {
            first
        } else {
            splatted_items(items, from + 1, name, first.matchers)
        }
    }
}

/// The rule of the name `name` that `value` defines, or why it defines
/// none. The value is a table. It may give a date format under
/// `date_format`, the query of the root selector under `root`, the query of
/// a role under the name of the role, and under `include_url` the globs of
/// the addresses that the rule is for.
pub open spec fn spec_rule(name: Seq<char>, value: ValueModel) -> Result<RuleModel, ErrorModel> {
    match value {
        ValueModel::Table(table) => match string_opt(table, "date_format"@) {
            Err(error) => Err(error),
            Ok(date_format) => match string_opt(table, "root"@) {
                Err(error) => Err(error),
                Ok(root_selector) => if root_selector is Some && !selector_compiles(root_selector->0) {
                    Err(ErrorModel::SelectorParserError)
                } else {
                    match with_selectors(spec_all_selector_kinds(), 12, table) {
                        Err(error) => Err(error),
                        Ok(selectors) => {
                            let splat = match lookup(table, "include_url"@) {
                                None => Splat { matchers: Seq::empty(), error: None },
                                Some(value) => splatted(value, "include_url"@, Seq::empty()),
                            };
                            match splat.error {
                                Some(error) => Err(error),
                                None => Ok(
                                    RuleModel {
                                        name,
                                        matchers: splat.matchers,
                                        extractor: ExtractorModel {
                                            selectors,
                                            options: ExtractorOptionsModel { date_format, root_selector },
                                        },
                                    },
                                ),
                            }
                        },
                    }
                },
            },
        },
        _ => Err(ErrorModel::FormatError("The rule '"@ + name + "' should be a table"@)),
    }
}

/// The rules that the first `upto` entries of `declarations` define, in
/// order; or the first error on the way.
pub open spec fn spec_rules_upto(declarations: Seq<EntryModel>, upto: int) -> Result<Seq<RuleModel>, ErrorModel>
    decreases upto,
{
    if upto <= 0 {
        Ok(Seq::empty())
    } else {
        match spec_rules_upto(declarations, upto - 1) {
            Err(error) => Err(error),
            Ok(rules) => match spec_rule(declarations[upto - 1].key, declarations[upto - 1].value) {
                Err(error) => Err(error),
                Ok(rule) => Ok(rules.push(rule)),
            },
        }
    }
}

/// The rules that the document `toml` defines: those of the table under
/// `rules`, each entry of it one rule of the name of its key, in the order
/// of the keys.
pub open spec fn spec_rules(toml: Seq<EntryModel>) -> Result<Seq<RuleModel>, ErrorModel> {
    match lookup(toml, "rules"@) {
        None => Err(ErrorModel::FormatError("No 'rules' key"@)),
        Some(ValueModel::Table(declarations)) => spec_rules_upto(declarations, declarations.len() as int),
        Some(_) => Err(ErrorModel::FormatError("The 'rules' value should be a table"@)),
    }
}

/// The rules that the TOML text `source` defines.
pub open spec fn spec_rules_from_str(source: Seq<char>) -> Result<Seq<RuleModel>, ErrorModel> {
    match toml_document(source) {
        Err(errors) => Err(ErrorModel::ParserErrors(errors)),
        Ok(toml) => spec_rules(toml),
    }
}

/// Whether `outcome` is `expected`, value for value.
pub open spec fn rules_are(outcome: Result<Vec<Rule>, Error>, expected: Result<Seq<RuleModel>, ErrorModel>) -> bool {
    match expected {
        Ok(rules) => outcome is Ok && rules_view(outcome->Ok_0@) == rules,
        Err(error) => outcome is Err && outcome->Err_0@ == error,
    }
}

/// `before`, `name` and `after` joined.
fn message(before: &str, name: &str, after: &str) -> (joined: String)
    ensures
        joined@ == before@ + name@ + after@,
{
    let mut joined = before.to_owned();
    joined.append(name);
    joined.append(after);
    joined
}

/// The value under `key` in `table`.
pub fn lookup_entry<'a>(table: &'a Vec<Entry>, key: &str) -> (value: Option<&'a ConfigValue>)
    ensures
        match value {
            Some(value) => lookup(table_view(table@), key@) == Some(value@),
            None => lookup(table_view(table@), key@) is None,
        },
{
    let wanted = key.to_owned();
    let ghost entries = table_view(table@);
    let mut i: usize = 0;
    assert(entries.skip(0) =~= entries);
    while i < table.len()
        invariant
            i <= table.len(),
            wanted@ == key@,
            entries == table_view(table@),
            lookup(entries, key@) == lookup(entries.skip(i as int), key@),
        decreases table.len() - i,
    {
        proof {
            let rest = entries.skip(i as int);
            assert(rest[0] == table[i as int]@);
            assert(rest.drop_first() =~= entries.skip(i + 1));
        }
        if table[i].key == wanted {
            return Some(&table[i].value);
        }
        i += 1;
    }
    None
}

/// The string under `name` in `table`, if there is an entry of this name;
/// an entry that holds no string is an error.
pub fn get_string_opt<'a>(table: &'a Vec<Entry>, name: &str) -> (text: Result<Option<&'a String>, Error>)
    ensures
        match string_opt(table_view(table@), name@) {
            Ok(Some(expected)) => text is Ok && text->Ok_0 is Some && text->Ok_0->0@ == expected,
            Ok(None) => text is Ok && text->Ok_0 is None,
            Err(error) => text is Err && text->Err_0@ == error,
        },
{
    match lookup_entry(table, name) {
        None => Ok(None),
        Some(ConfigValue::String(text)) => Ok(Some(text)),
        Some(_) => Err(Error::FormatError(message("'", name, "' should be a string"))),
    }
}

/// Compiles a query.
pub fn parse_kuchiki_selectors(s: &str) -> (query: Result<Query, Error>)
    ensures
        query is Ok <==> selector_compiles(s@),
        query is Ok ==> query->Ok_0@ == s@,
        query is Err ==> query->Err_0@ == ErrorModel::SelectorParserError,
{
    match Query::compile(s) {
        Some(query) => Ok(query),
        None => Err(Error::SelectorParserError),
    }
}

/// Adds to `extractor` the selector that `table` gives for the role
/// `selector_kind`, where it gives one.
pub fn parse_selector(selector_kind: SelectorKind, table: &Vec<Entry>, extractor: &mut Extractor) -> (done: Result<
    (),
    Error,
>)
    ensures
        match with_selector(selector_kind, table_view(table@), old(extractor)@.selectors) {
            Ok(selectors) => done is Ok && final(extractor)@ == (ExtractorModel { selectors, ..old(extractor)@ }),
            Err(error) => done is Err && done->Err_0@ == error && final(extractor)@ == old(extractor)@,
        },
{
    let name = selector_kind.name();
    match lookup_entry(table, name) {
        None => Ok(()),
        Some(ConfigValue::String(query)) => {
            match parse_kuchiki_selectors(query.as_str()) {
                Ok(query) => {
                    extractor.add_selector(Selector::new(selector_kind, query));
                    Ok(())
                },
                Err(error) => Err(error),
            }
        },
        Some(_) => {
            let mut reason = name.to_owned();
            reason.append(" should be a string");
            Err(Error::FormatError(reason))
        },
    }
}

/// Adds to `rule` a matcher for each glob in `value`, a string or an
/// array of such values, in order; stops at the first glob whose regular
/// expression does not compile and at the first value that is neither
/// string nor array.
fn splat_value(value: &ConfigValue, name: &str, rule: &mut Rule) -> (done: Result<(), Error>)
    ensures
        final(rule)@ == (RuleModel { matchers: splatted(value@, name@, old(rule)@.matchers).matchers, ..old(rule)@ }),
        match splatted(value@, name@, old(rule)@.matchers).error {
            None => done is Ok,
            Some(error) => done is Err && done->Err_0@ == error,
        },
    decreases value,
{
    match value {
        ConfigValue::String(glob) => match URLMatcher::new(glob.as_str()) {
            Ok(matcher) => {
                rule.add_matcher(matcher);
                Ok(())
            },
            Err(error) => Err(Error::PatternError(error.message)),
        },
        ConfigValue::Array(items) => {
            let ghost values = values_view(items@);
            let ghost start = rule@;
            proof {
                lemma_value_view(*value);
            }
            let mut i: usize = 0;
            while i < items.len()
                invariant
                    i <= items.len(),
                    values == values_view(items@),
                    value == ConfigValue::Array(*items),
                    value@ == ValueModel::Array(values),
                    start == old(rule)@,
                    rule@ == (RuleModel { matchers: rule@.matchers, ..start }),
                    splatted_items(values, i as int, name@, rule@.matchers) == splatted_items(
                        values,
                        0,
                        name@,
                        start.matchers,
                    ),
                decreases items.len() - i,
            {
                assert(values[i as int] == items[i as int]@);
                let ghost before = rule@.matchers;
                match splat_value(&items[i], name, rule) {
                    Ok(()) => {},
                    Err(error) => {
                        assert(splatted_items(values, i as int, name@, before) == splatted(
                            values[i as int],
                            name@,
                            before,
                        ));
                        return Err(error);
                    },
                }
                i += 1;
            }
            Ok(())
        },
        _ => Err(Error::FormatError(message("'", name, "' should be a string"))),
    }
}

/// Adds to `rule` a matcher for each glob in `opt_value`, where there is
/// a value: a string or an array of such values.
pub fn splat(opt_value: Option<&ConfigValue>, name: &str, rule: &mut Rule) -> (done: Result<(), Error>)
    ensures
        opt_value is None ==> done is Ok && final(rule)@ == old(rule)@,
        opt_value is Some ==> {
            let splat = splatted(opt_value->0@, name@, old(rule)@.matchers);
            &&& final(rule)@ == (RuleModel { matchers: splat.matchers, ..old(rule)@ })
            &&& match splat.error {
                None => done is Ok,
                Some(error) => done is Err && done->Err_0@ == error,
            }
        },
{
    match opt_value {
        None => Ok(()),
        Some(value) => splat_value(value, name, rule),
    }
}

/// Reads the rule of the name `name` out of `value`.
#[verifier::loop_isolation(false)]
pub fn parse_rule_from_toml_value(name: &str, value: &ConfigValue) -> (rule: Result<Rule, Error>)
    ensures
        match spec_rule(name@, value@) {
            Ok(expected) => rule is Ok && rule->Ok_0@ == expected,
            Err(error) => rule is Err && rule->Err_0@ == error,
        },
{
    let table = match value {
        ConfigValue::Table(table) => table,
        _ => {
            return Err(Error::FormatError(message("The rule '", name, "' should be a table")));
        },
    };
    proof {
        lemma_value_view(*value);
    }
    let date_format = match get_string_opt(table, "date_format") {
        Ok(Some(format)) => Some(format.clone()),
        Ok(None) => None,
        Err(error) => {
            return Err(error);
        },
    };
    let root_selector = match get_string_opt(table, "root") {
        Ok(Some(root)) => match parse_kuchiki_selectors(root.as_str()) {
            Ok(query) => Some(query),
            Err(error) => {
                return Err(error);
            },
        },
        Ok(None) => None,
        Err(error) => {
            return Err(error);
        },
    };
    let mut extractor = Extractor::new(ExtractorOptions { date_format, root_selector });
    let ghost options = extractor@.options;
    let ghost entries = table_view(table@);
    let kinds = all_selector_kinds();
    let mut i: usize = 0;
    while i < kinds.len()
        invariant
            i <= kinds.len(),
            kinds@ == spec_all_selector_kinds(),
            entries == table_view(table@),
            extractor@.options == options,
            with_selectors(kinds@, i as int, entries) == Ok::<Seq<SelectorModel>, ErrorModel>(
                extractor@.selectors,
            ),
        decreases kinds.len() - i,
    {
        match parse_selector(kinds[i], table, &mut extractor) {
            Ok(()) => {},
            Err(error) => {
                proof {
                    lemma_with_selectors_fails(kinds@, i + 1, 12, entries);
                }
                return Err(error);
            },
        }
        i += 1;
    }
    let mut result = Rule::new(name.to_owned(), extractor);
    match splat(lookup_entry(table, "include_url"), "include_url", &mut result) {
        Ok(()) => Ok(result),
        Err(error) => Err(error),
    }
}

/// Once the reading of the selectors has failed, it stays failed
/// whatever roles follow.
proof fn lemma_with_selectors_fails(kinds: Seq<SelectorKind>, at: int, upto: int, table: Seq<EntryModel>)
    requires
        with_selectors(kinds, at, table) is Err,
        at <= upto,
    ensures
        with_selectors(kinds, upto, table) == with_selectors(kinds, at, table),
    decreases upto - at,
{
    if at < upto {
        lemma_with_selectors_fails(kinds, at, upto - 1, table);
    }
}

/// Once the reading of the rules has failed, it stays failed whatever
/// entries follow.
proof fn lemma_rules_upto_fails(declarations: Seq<EntryModel>, at: int, upto: int)
    requires
        spec_rules_upto(declarations, at) is Err,
        at <= upto,
    ensures
        spec_rules_upto(declarations, upto) == spec_rules_upto(declarations, at),
    decreases upto - at,
{
    if at < upto {
        lemma_rules_upto_fails(declarations, at, upto - 1);
    }
}

/// Reads one rule out of each entry of `declarations`, of the name of
/// its key, in the order of the entries.
pub fn parse_rule_table(declarations: &Vec<Entry>) -> (rules: Result<Vec<Rule>, Error>)
    ensures
        rules_are(rules, spec_rules_upto(table_view(declarations@), declarations.len() as int)),
{
    let ghost entries = table_view(declarations@);
    let mut rules: Vec<Rule> = Vec::new();
    let mut i: usize = 0;
    assert(rules_view(rules@) =~= Seq::empty());
    while i < declarations.len()
        invariant
            i <= declarations.len(),
            entries == table_view(declarations@),
            spec_rules_upto(entries, i as int) == Ok::<Seq<RuleModel>, ErrorModel>(rules_view(rules@)),
        decreases declarations.len() - i,
    {
        assert(entries[i as int] == declarations[i as int]@);
        match parse_rule_from_toml_value(declarations[i].key.as_str(), &declarations[i].value) {
            Ok(rule) => {
                let ghost before = rules_view(rules@);
                let ghost added = rule@;
                rules.push(rule);
                assert(rules_view(rules@) =~= before.push(added));
            },
            Err(error) => {
                proof {
                    lemma_rules_upto_fails(entries, i + 1, entries.len() as int);
                }
                return Err(error);
            },
        }
        i += 1;
    }
    Ok(rules)
}

/// Reads the rules out of the document `toml`: out of the table under
/// `rules`, each entry of it one rule of the name of its key, in the order
/// of the keys.
pub fn parse_rules(toml: &Vec<Entry>) -> (rules: Result<Vec<Rule>, Error>)
    ensures
        rules_are(rules, spec_rules(table_view(toml@))),
{
    match lookup_entry(toml, "rules") {
        None => Err(Error::FormatError("No 'rules' key".to_owned())),
        Some(value) => {
            proof {
                lemma_value_view(*value);
            }
            match value {
                ConfigValue::Table(declarations) => parse_rule_table(declarations),
                _ => Err(Error::FormatError("The 'rules' value should be a table".to_owned())),
            }
        },
    }
}

/// Parses the TOML text `source` into the root table of the document.
pub fn parse_document(source: &str) -> (parsed: Result<Vec<Entry>, Vec<ParserError>>)
    ensures
        match parsed {
            Ok(entries) => toml_document(source@) == Ok::<Seq<EntryModel>, Seq<ParserErrorModel>>(
                table_view(entries@),
            ),
            Err(errors) => toml_document(source@) == Err::<Seq<EntryModel>, Seq<ParserErrorModel>>(
                parser_errors_view(errors@),
            ),
        },
{
    toml_parse(source)
}

/// Reads the rules out of the TOML text `toml`.
pub fn parse_rules_from_str(toml: &str) -> (rules: Result<Vec<Rule>, Error>)
    ensures
        rules_are(rules, spec_rules_from_str(toml@)),
{
    match parse_document(toml) {
        Ok(parsed) => parse_rules(&parsed),
        Err(errors) => Err(Error::ParserErrors(errors)),
    }
}

/// The line that tells of one parser error: the line and the column of
/// the error, each counted from 1, and its description.
pub open spec fn parser_error_line(error: ParserErrorModel) -> Seq<char> {
    decimal((error.line + 1) as nat) + ":"@ + decimal((error.column + 1) as nat) + "  "@ + error.description
        + "\n"@
}

/// The lines that tell of the first `upto` parser errors.
pub open spec fn parser_error_lines(errors: Seq<ParserErrorModel>, upto: int) -> Seq<char>
    decreases upto,
{
    if upto <= 0 {
        Seq::empty()
    } else {
        parser_error_lines(errors, upto - 1) + parser_error_line(errors[upto - 1])
    }
}

impl Error {
    /// The error in words: a line for each parser error, the reason of a
    /// format error, or what the compiler said of a pattern.
    pub fn to_string(&self) -> (text: String)
        ensures
            match self {
                Error::ParserErrors(errors) => text@ == parser_error_lines(
                    parser_errors_view(errors@),
                    errors.len() as int,
                ),
                Error::FormatError(reason) => text@ == reason@,
                Error::SelectorParserError => text@ == "Failed to parse the selector"@,
                Error::PatternError(said) => text@ == said@,
            },
    {
        match self {
            Error::ParserErrors(errors) => {
                let mut out: Vec<char> = Vec::new();
                let mut i: usize = 0;
                while i < errors.len()
                    invariant
                        i <= errors.len(),
                        out@ == parser_error_lines(parser_errors_view(errors@), i as int),
                    decreases errors.len() - i,
                {
                    let ghost before = out@;
                    let error = &errors[i];
                    push_decimal(&mut out, error.line as u128 + 1);
                    push_chars(&mut out, ":");
                    push_decimal(&mut out, error.column as u128 + 1);
                    push_chars(&mut out, "  ");
                    push_chars(&mut out, error.description.as_str());
                    push_chars(&mut out, "\n");
                    assert(out@ =~= before + parser_error_line(error@));
                    assert(parser_errors_view(errors@)[i as int] == error@);
                    i += 1;
                }
                from_chars(&out)
            },
            Error::FormatError(reason) => reason.clone(),
            Error::SelectorParserError => "Failed to parse the selector".to_owned(),
            Error::PatternError(said) => said.clone(),
        }
    }

    /// The kind of the error in words.
    pub fn description(&self) -> (text: &'static str)
        ensures
            text@ == match self {
                Error::ParserErrors(..) => "TOML parser errors"@,
                Error::FormatError(..) => "TOML format error"@,
                Error::SelectorParserError => "Selector parser error"@,
                Error::PatternError(..) => "URL pattern error"@,
            },
    {
        match self {
            Error::ParserErrors(..) => "TOML parser errors",
            Error::FormatError(..) => "TOML format error",
            Error::SelectorParserError => "Selector parser error",
            Error::PatternError(..) => "URL pattern error",
        }
    }

    /// The error that lies behind this one: there is never one.
    pub fn cause(&self) -> (cause: Option<&Error>)
        ensures
            cause is None,
    {
        None
    }
}

} // verus!
