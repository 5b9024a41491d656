//! The applications of a device that share files.

use vstd::prelude::*;
use vstd::string::*;

use crate::options::AppInfo;
use crate::sorting;
use crate::sorting::Named;
use crate::text;

verus! {

/// A value of a property list: here, the properties of an application.
#[verifier::external_type_specification]
#[verifier::external_body]
pub struct ExValue(plist::Value);

/// The entries of a value that hold a text; a value that is no dictionary has no entries.
pub uninterp spec fn texts_in(value: plist::Value) -> Map<Seq<char>, Seq<char>>;

/// The entries of a value that hold a truth value; a value that is no dictionary has no entries.
pub uninterp spec fn flags_in(value: plist::Value) -> Map<Seq<char>, bool>;

/// `plist::Value::as_dictionary`, `plist::Dictionary::get` and `plist::Value::as_string`, one after
/// the other, give the text under a key, where the value is a dictionary, has an entry for the key,
/// and the entry holds a text.
#[verifier::external_body]
fn text_in(value: &plist::Value, key: &str) -> (r: Option<String>)
    ensures
        match r {
            Some(found) => texts_in(*value).contains_key(key@) && found@ == texts_in(*value)[key@],
            None => !texts_in(*value).contains_key(key@),
        },
{
    value.as_dictionary()?.get(key)?.as_string().map(str::to_owned)
}

/// `plist::Value::as_dictionary`, `plist::Dictionary::get` and `plist::Value::as_boolean`, one
/// after the other, give the truth value under a key, where the value is a dictionary, has an entry
/// for the key, and the entry holds a truth value.
#[verifier::external_body]
fn flag_in(value: &plist::Value, key: &str) -> (r: Option<bool>)
    ensures
        match r {
            Some(found) => flags_in(*value).contains_key(key@) && found == flags_in(*value)[key@],
            None => !flags_in(*value).contains_key(key@),
        },
{
    value.as_dictionary()?.get(key)?.as_boolean()
}

/// What is known of an application.
pub ghost struct AppFacts {
    pub bundle_id: Seq<char>,
    pub version: Seq<char>,
    pub display_name: Seq<char>,
}

impl View for AppInfo {
    type V = AppFacts;

    open spec fn view(&self) -> AppFacts {
        AppFacts {
            bundle_id: self.bundle_id@,
            version: self.version@,
            display_name: self.display_name@,
        }
    }
}

impl Named for AppInfo {
    open spec fn name_of(&self) -> Seq<char> {
        self.bundle_id@
    }

    fn name(&self) -> (r: &str) {
        self.bundle_id.as_str()
    }
}

/// The text under a key, or no characters where there is none.
pub open spec fn text_or_empty(value: plist::Value, key: Seq<char>) -> Seq<char> {
    if texts_in(value).contains_key(key) {
        texts_in(value)[key]
    } else {
        Seq::empty()
    }
}

/// The text under a key, or no characters where there is none.
pub fn string_value(value: &plist::Value, key: &str) -> (r: String)
    ensures
        r@ == text_or_empty(*value, key@),
{
    match text_in(value, key) {
        Some(found) => found,
        None => String::new(),
    }
}

/// What is shown of an application that shares files; one that does not say that it shares files is
/// not shown.
pub open spec fn shared_app(bundle_id: Seq<char>, properties: plist::Value) -> Option<AppFacts> {
    let flags = flags_in(properties);
    if flags.contains_key("UIFileSharingEnabled"@) && flags["UIFileSharingEnabled"@] {
        Some(
            AppFacts {
                bundle_id,
                version: text_or_empty(properties, "CFBundleVersion"@),
                display_name: text_or_empty(properties, "CFBundleDisplayName"@),
            },
        )
    } else {
        None
    }
}

/// What is shown of several applications.
pub open spec fn shared_apps(apps: Seq<(String, plist::Value)>) -> Seq<AppFacts>
    decreases apps.len(),
{
    if apps.len() == 0 {
        Seq::empty()
    } else {
        let before = shared_apps(apps.drop_last());
        match shared_app(apps.last().0@, apps.last().1) {
            Some(facts) => before.push(facts),
            None => before,
        }
    }
}

/// What is shown of several applications.
pub open spec fn app_facts(list: Seq<AppInfo>) -> Seq<AppFacts> {
    list.map_values(|app: AppInfo| app@)
}

/// The applications that share files, in the order of their identifiers.
pub fn list_shared(apps: &Vec<(String, plist::Value)>) -> (r: Vec<AppInfo>)
    ensures
        sorting::in_order(sorting::names_of(r@)),
        app_facts(r@).to_multiset() == shared_apps(apps@).to_multiset(),
{
    let mut out: Vec<AppInfo> = Vec::new();
    let mut i: usize = 0;
    assert(apps@.take(0) =~= Seq::empty());
    assert(app_facts(out@) =~= Seq::<AppFacts>::empty());
    while i < apps.len()
        invariant
            i <= apps@.len(),
            sorting::in_order(sorting::names_of(out@)),
            app_facts(out@).to_multiset() == shared_apps(apps@.take(i as int)).to_multiset(),
        decreases apps.len() - i,
    {
        assert(apps@.take(i + 1).drop_last() =~= apps@.take(i as int));
        let ghost before = out@;
        let ghost shared = shared_apps(apps@.take(i as int));
        let properties: &plist::Value = &apps[i].1;
        let sharing: bool = match flag_in(properties, "UIFileSharingEnabled") {
            Some(flag) => flag,
            None => false,
        };
        if sharing {
            let app = AppInfo {
                bundle_id: apps[i].0.clone(),
                version: string_value(properties, "CFBundleVersion"),
                display_name: string_value(properties, "CFBundleDisplayName"),
            };
            let ghost facts = app@;
            let ghost at = sorting::rank(sorting::names_of(before), app.name_of()) as int;
            sorting::place(&mut out, app);
            proof {
                assert(app_facts(out@) =~= app_facts(before).insert(at, facts));
                vstd::seq_lib::to_multiset_insert(app_facts(before), at, facts);
                shared.to_multiset_ensures();
            }
        }
        i += 1;
    }
    assert(apps@.take(i as int) =~= apps@);
    out
}

/// The text of a field of a list of values: a quotation mark stands twice.
pub open spec fn escaped(value: Seq<char>) -> Seq<char> {
    text::replaced(value, '"', seq!['"', '"'])
}

/// The text of a field of a list of values.
pub fn csv(value: &str) -> (r: String)
    ensures
        r@ == escaped(value@),
{
    proof {
        reveal_strlit("\"\"");
        assert("\"\""@ =~= seq!['"', '"']);
    }
    text::replace(value, '"', "\"\"")
}

/// A field with each pair of quotation marks read as one.
pub open spec fn unescaped(field: Seq<char>) -> Seq<char>
    decreases field.len(),
{
    if field.len() == 0 {
        field
    } else if field.len() >= 2 && field.last() == '"' && field[field.len() - 2] == '"' {
        unescaped(field.take(field.len() - 2)).push('"')
    } else {
        unescaped(field.drop_last()).push(field.last())
    }
}

/// A value that was written as a field is read back from it.
pub proof fn law_fields_read_back(value: Seq<char>)
    ensures
        unescaped(escaped(value)) == value,
    decreases value.len(),
{
    if value.len() > 0 {
        law_fields_read_back(value.drop_last());
        let before = escaped(value.drop_last());
        let field = escaped(value);
        if value.last() == '"' {
            assert(field =~= before + seq!['"', '"']);
            assert(field.take(field.len() - 2) =~= before);
        } else {
            assert(field.drop_last() =~= before);
        }
        assert(unescaped(field) =~= value);
    }
}

/// The line that names the fields of the lines that follow.
pub fn csv_header() -> (r: String)
    ensures
        r@ == "\"CFBundleIdentifier\",\"CFBundleVersion\",\"CFBundleDisplayName\""@,
{
    "\"CFBundleIdentifier\",\"CFBundleVersion\",\"CFBundleDisplayName\"".to_owned()
}

/// The line for an application.
pub fn csv_line(app: &AppInfo) -> (r: String)
    ensures
        r@ == "\""@ + escaped(app.bundle_id@) + "\",\""@ + escaped(app.version@) + "\",\""@
            + escaped(app.display_name@) + "\""@,
{
    let id: String = csv(app.bundle_id.as_str());
    let version: String = csv(app.version.as_str());
    let name: String = csv(app.display_name.as_str());
    let first: String = text::joined3("\"", id.as_str(), "\",\"");
    let second: String = text::joined3(first.as_str(), version.as_str(), "\",\"");
    text::joined3(second.as_str(), name.as_str(), "\"")
}

} // verus!
