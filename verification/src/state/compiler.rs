//! What every page is compiled with besides its own data.
use vstd::prelude::*;
use crate::cfg::Settings;
use crate::auth::{AuthObject, PermissionFlag, PermissionsRole};
use crate::state::db_objects::DbPerson;
use crate::error::{VentError, LiquidAction};
use crate::liquid_utils::partials::{Partials, pairs_map};
use crate::text::{owned, same_text};

verus! {

/// Compiles pages.
#[derive(Clone, Debug)]
pub struct VentCompiler;

/// The site-wide values every page receives.
pub struct SiteInfo {
    pub instance_name: String,
    pub html_title: String,
    pub domain_exists: bool,
    pub domain: String,
    pub show_bonus_points: bool,
    pub show_different_awards: bool,
    pub uses_ga: bool,
    pub ga_key: Option<String>,
}

/// The site-wide values for a page: the page's title is the extra title given, or
/// else the site's name; the domain is the `DOMAIN` setting when there is one; bonus
/// points and award thresholds show unless hidden; Google Analytics is used when the
/// settings give a key.
pub fn site_info(
    settings: &Settings,
    title_additional_info: Option<String>,
    domain: Option<String>,
    hide_bonus_points: bool,
    disable_award_thresholds: bool,
) -> (info: SiteInfo)
    ensures
        info.instance_name@ == settings.brand.instance_name@,
        info.html_title@ == (match title_additional_info { Some(t) => t@, None => settings.brand.instance_name@ }),
        info.domain_exists == domain is Some,
        info.domain@ == (match domain { Some(d) => d@, None => Seq::empty() }),
        info.show_bonus_points == !hide_bonus_points,
        info.show_different_awards == !disable_award_thresholds,
        info.uses_ga == settings.brand.google_analytics is Some,
        info.ga_key == settings.brand.google_analytics,
{
    let project_name = settings.brand.instance_name.clone();
    let title = match title_additional_info {
        Some(t) => t,
        None => project_name.clone(),
    };
    let (domain_exists, domain) = match domain {
        Some(d) => (true, d),
        None => (false, String::new()),
    };
    SiteInfo {
        instance_name: project_name,
        html_title: title,
        domain_exists,
        domain,
        show_bonus_points: !hide_bonus_points,
        show_different_awards: !disable_award_thresholds,
        uses_ga: settings.brand.google_analytics.is_some(),
        ga_key: settings.brand.google_analytics.clone(),
    }
}


/// A value handed to a page template: what the template language holds, without
/// floating-point numbers.
pub enum PageValue {
    Nil,
    Bool(bool),
    Int(i64),
    Text(String),
    List(Vec<PageValue>),
    Object(Vec<(String, PageValue)>),
}


/// A page value as the template language sees it: texts by their characters.
pub ghost enum PageModel {
    Nil,
    Bool(bool),
    Int(int),
    Text(Seq<char>),
    List(Seq<PageModel>),
    Object(Seq<(Seq<char>, PageModel)>),
}

/// The model of a page value.
pub open spec fn page_model(v: PageValue) -> PageModel
    decreases v,
{
    match v {
        PageValue::Nil => PageModel::Nil,
        PageValue::Bool(b) => PageModel::Bool(b),
        PageValue::Int(i) => PageModel::Int(i as int),
        PageValue::Text(t) => PageModel::Text(t@),
        PageValue::List(items) => PageModel::List(items_model(items@)),
        PageValue::Object(entries) => PageModel::Object(entries_model(entries@)),
    }
}

/// The models of values, in order.
pub open spec fn items_model(items: Seq<PageValue>) -> Seq<PageModel>
    decreases items,
{
    Seq::new(items.len(), |i: int| if 0 <= i < items.len() { page_model(items[i]) } else { PageModel::Nil })
}

/// The models of named entries, in order.
pub open spec fn entries_model(entries: Seq<(String, PageValue)>) -> Seq<(Seq<char>, PageModel)>
    decreases entries,
{
    Seq::new(entries.len(), |i: int| if 0 <= i < entries.len() { (entries[i].0@, page_model(entries[i].1)) } else { (Seq::empty(), PageModel::Nil) })
}

/// Whether `v` is the text `s`.
pub open spec fn is_text(v: PageValue, s: Seq<char>) -> bool {
    v matches PageValue::Text(t) && t@ == s
}

/// Whether `entry` is named `key`.
pub open spec fn is_named(entry: (String, PageValue), key: Seq<char>) -> bool {
    entry.0@ == key
}

/// Whether `v` is the `google_analytics` object: `uses_ga`, then `ga_key` where there
/// is a key.
pub open spec fn is_analytics_value(v: PageValue, uses_ga: bool, key: Option<String>) -> bool {
    v matches PageValue::Object(es) && {
        &&& es@.len() == (if key is Some { 2int } else { 1int })
        &&& is_named(es@[0], "uses_ga"@) && es@[0].1 == PageValue::Bool(uses_ga)
        &&& key matches Some(k) ==> is_named(es@[1], "ga_key"@) && is_text(es@[1].1, k@)
    }
}

/// Whether `v` is the `siteinfo` object every page receives, its fields in order.
pub open spec fn is_site_info_value(v: PageValue, info: SiteInfo) -> bool {
    v matches PageValue::Object(es) && {
        &&& es@.len() == 7
        &&& is_named(es@[0], "instance_name"@) && is_text(es@[0].1, info.instance_name@)
        &&& is_named(es@[1], "html_title"@) && is_text(es@[1].1, info.html_title@)
        &&& is_named(es@[2], "domain_exists"@) && es@[2].1 == PageValue::Bool(info.domain_exists)
        &&& is_named(es@[3], "domain"@) && is_text(es@[3].1, info.domain@)
        &&& is_named(es@[4], "show_bonus_points"@) && es@[4].1 == PageValue::Bool(info.show_bonus_points)
        &&& is_named(es@[5], "show_different_awards"@) && es@[5].1 == PageValue::Bool(info.show_different_awards)
        &&& is_named(es@[6], "google_analytics"@) && is_analytics_value(es@[6].1, info.uses_ga, info.ga_key)
    }
}

/// The name a role is written with.
pub open spec fn role_text(role: PermissionsRole) -> Seq<char> {
    match role {
        PermissionsRole::Participant => "Participant"@,
        PermissionsRole::Prefect => "Prefect"@,
        PermissionsRole::Admin => "Admin"@,
        PermissionsRole::Dev => "Dev"@,
    }
}

/// Whether `v` is a person as pages see one: every field of the row, in order.
pub open spec fn is_person_value(v: PageValue, p: DbPerson) -> bool {
    v matches PageValue::Object(es) && {
        &&& es@.len() == 8
        &&& is_named(es@[0], "id"@) && es@[0].1 == PageValue::Int(p.id as i64)
        &&& is_named(es@[1], "first_name"@) && is_text(es@[1].1, p.first_name@)
        &&& is_named(es@[2], "surname"@) && is_text(es@[2].1, p.surname@)
        &&& is_named(es@[3], "username"@) && is_text(es@[3].1, p.username@)
        &&& is_named(es@[4], "was_first_entry"@) && es@[4].1 == PageValue::Bool(p.was_first_entry)
        &&& is_named(es@[5], "form"@) && is_text(es@[5].1, p.form@)
        &&& is_named(es@[6], "hashed_password"@) && match p.hashed_password {
            Some(h) => is_text(es@[6].1, h@),
            None => es@[6].1 == PageValue::Nil,
        }
        &&& is_named(es@[7], "permissions"@) && is_text(es@[7].1, role_text(p.permissions))
    }
}

/// Whether `v` holds a flag for each permission, in order: its name and whether it is
/// allowed.
pub open spec fn is_flags_value(v: PageValue, flags: Seq<PermissionFlag>) -> bool {
    v matches PageValue::Object(es) && {
        &&& es@.len() == flags.len()
        &&& forall|i: int| 0 <= i < flags.len() ==> is_named(#[trigger] es@[i], flags[i].name@) && es@[i].1 == PageValue::Bool(flags[i].allowed)
    }
}

/// Whether `v` is the `auth` object every page receives: whether the visitor is signed
/// in, their permissions, and, when signed in, who they are.
pub open spec fn is_auth_value(v: PageValue, auth: AuthObject) -> bool {
    v matches PageValue::Object(es) && {
        &&& es@.len() == (if auth.user is Some { 3int } else { 2int })
        &&& is_named(es@[0], "is_logged_in"@) && es@[0].1 == PageValue::Bool(auth.is_logged_in)
        &&& is_named(es@[1], "permissions"@) && is_flags_value(es@[1].1, auth.permissions@)
        &&& auth.user matches Some(u) ==> is_named(es@[2], "user"@) && is_person_value(es@[2].1, u)
    }
}

/// Whether an entry is one of those every page is given by the site.
pub open spec fn is_site_entry(entry: (String, PageValue)) -> bool {
    entry.0@ == "cft_sitekey"@ || entry.0@ == "siteinfo"@ || entry.0@ == "auth"@
}

/// Keeps an entry that is not one of the site's.
pub open spec fn not_site_entry() -> spec_fn((String, PageValue)) -> bool {
    |e: (String, PageValue)| !is_site_entry(e)
}

/// Whether `globals` is `page` with the site's entries set: the page's own entries in
/// order, without any it had under the site's names, then `cft_sitekey`, `siteinfo`
/// and `auth`.
pub open spec fn are_page_globals(
    globals: Seq<(String, PageValue)>,
    page: Seq<(String, PageValue)>,
    info: SiteInfo,
    auth: AuthObject,
    cft_sitekey: Seq<char>,
) -> bool {
    let n = globals.len() - 3;
    &&& globals.len() >= 3
    &&& globals.take(n) == page.filter(not_site_entry())
    &&& is_named(globals[n], "cft_sitekey"@) && is_text(globals[n].1, cft_sitekey)
    &&& is_named(globals[n + 1], "siteinfo"@) && is_site_info_value(globals[n + 1].1, info)
    &&& is_named(globals[n + 2], "auth"@) && is_auth_value(globals[n + 2].1, auth)
}


fn text_value(s: &str) -> (v: PageValue)
    ensures
        is_text(v, s@),
{
    PageValue::Text(owned(s))
}

fn entry(key: &str, value: PageValue) -> (e: (String, PageValue))
    ensures
        is_named(e, key@),
        e.1 == value,
{
    (owned(key), value)
}

/// The `google_analytics` object of the site's values.
fn analytics_value(uses_ga: bool, key: &Option<String>) -> (v: PageValue)
    ensures
        is_analytics_value(v, uses_ga, *key),
{
    let mut es: Vec<(String, PageValue)> = Vec::new();
    es.push(entry("uses_ga", PageValue::Bool(uses_ga)));
    match key {
        Some(k) => {
            es.push(entry("ga_key", text_value(k.as_str())));
        },
        None => {},
    }
    PageValue::Object(es)
}

/// The `siteinfo` object a page receives.
pub fn site_info_value(info: &SiteInfo) -> (v: PageValue)
    ensures
        is_site_info_value(v, *info),
{
    let mut es: Vec<(String, PageValue)> = Vec::new();
    es.push(entry("instance_name", text_value(info.instance_name.as_str())));
    es.push(entry("html_title", text_value(info.html_title.as_str())));
    es.push(entry("domain_exists", PageValue::Bool(info.domain_exists)));
    es.push(entry("domain", text_value(info.domain.as_str())));
    es.push(entry("show_bonus_points", PageValue::Bool(info.show_bonus_points)));
    es.push(entry("show_different_awards", PageValue::Bool(info.show_different_awards)));
    es.push(entry("google_analytics", analytics_value(info.uses_ga, &info.ga_key)));
    PageValue::Object(es)
}

fn role_value(role: PermissionsRole) -> (v: PageValue)
    ensures
        is_text(v, role_text(role)),
{
    match role {
        PermissionsRole::Participant => text_value("Participant"),
        PermissionsRole::Prefect => text_value("Prefect"),
        PermissionsRole::Admin => text_value("Admin"),
        PermissionsRole::Dev => text_value("Dev"),
    }
}

/// A person as pages see one.
pub fn person_value(p: &DbPerson) -> (v: PageValue)
    ensures
        is_person_value(v, *p),
{
    let mut es: Vec<(String, PageValue)> = Vec::new();
    es.push(entry("id", PageValue::Int(p.id as i64)));
    es.push(entry("first_name", text_value(p.first_name.as_str())));
    es.push(entry("surname", text_value(p.surname.as_str())));
    es.push(entry("username", text_value(p.username.as_str())));
    es.push(entry("was_first_entry", PageValue::Bool(p.was_first_entry)));
    es.push(entry("form", text_value(p.form.as_str())));
    let hashed = match &p.hashed_password {
        Some(h) => text_value(h.as_str()),
        None => PageValue::Nil,
    };
    es.push(entry("hashed_password", hashed));
    es.push(entry("permissions", role_value(p.permissions)));
    PageValue::Object(es)
}

fn flags_value(flags: &Vec<PermissionFlag>) -> (v: PageValue)
    ensures
        is_flags_value(v, flags@),
{
    let mut es: Vec<(String, PageValue)> = Vec::new();
    let mut i: usize = 0;
    while i < flags.len()
        invariant
            i <= flags@.len(),
            es@.len() == i,
            forall|k: int| 0 <= k < i ==> is_named(#[trigger] es@[k], flags@[k].name@) && es@[k].1 == PageValue::Bool(flags@[k].allowed),
        decreases flags@.len() - i,
    {
        es.push(entry(flags[i].name.as_str(), PageValue::Bool(flags[i].allowed)));
        i = i + 1;
    }
    PageValue::Object(es)
}

/// The `auth` object a page receives.
pub fn auth_value(auth: &AuthObject) -> (v: PageValue)
    ensures
        is_auth_value(v, *auth),
{
    let mut es: Vec<(String, PageValue)> = Vec::new();
    es.push(entry("is_logged_in", PageValue::Bool(auth.is_logged_in)));
    es.push(entry("permissions", flags_value(&auth.permissions)));
    match &auth.user {
        Some(u) => {
            es.push(entry("user", person_value(u)));
        },
        None => {},
    }
    PageValue::Object(es)
}

/// The values a page is rendered with: the page's own, then the site key for the
/// Cloudflare check, the site-wide values and what is known of the visitor, each
/// replacing any the page had under that name.
pub fn page_globals(page: Vec<(String, PageValue)>, info: &SiteInfo, auth: &AuthObject, cft_sitekey: &str) -> (g: Vec<(String, PageValue)>)
    ensures
        are_page_globals(g@, page@, *info, *auth, cft_sitekey@),
{
    let ghost keep = not_site_entry();
    let ghost original = page@;
    let mut rest = page;
    let mut g: Vec<(String, PageValue)> = Vec::new();
    while rest.len() > 0
        invariant
            keep == not_site_entry(),
            rest@.len() <= original.len(),
            rest@ == original.skip(original.len() - rest@.len()),
            g@ == original.take(original.len() - rest@.len()).filter(keep),
        decreases rest@.len(),
    {
        let ghost j = original.len() - rest@.len();
        let e = rest.remove(0);
        proof {
            assert(e == original[j]);
            assert(rest@ =~= original.skip(j + 1));
            assert(original.take(j + 1) =~= original.take(j).push(e));
            original.take(j).lemma_filter_push(e, keep);
        }
        let site = site_key(e.0.as_str());
        if !site {
            g.push(e);
        }
    }
    proof {
        assert(original.take(original.len() as int) =~= original);
    }
    let ghost kept = g@;
    g.push(entry("cft_sitekey", text_value(cft_sitekey)));
    g.push(entry("siteinfo", site_info_value(info)));
    g.push(entry("auth", auth_value(auth)));
    assert(g@.take(kept.len() as int) =~= kept);
    g
}

fn site_key(key: &str) -> (r: bool)
    ensures
        r == (key@ == "cft_sitekey"@ || key@ == "siteinfo"@ || key@ == "auth"@),
{
    same_text(key, "cft_sitekey") || same_text(key, "siteinfo") || same_text(key, "auth")
}


#[verifier::external_type_specification]
#[verifier::external_body]
pub struct ExLiquidValue(liquid::model::Value);

#[verifier::external_type_specification]
#[verifier::external_body]
pub struct ExLiquidObject(liquid::Object);

/// `liquid::model::Value::Nil`.
#[verifier::external_body]
fn liquid_nil() -> (v: liquid::model::Value) {
    liquid::model::Value::Nil
}

/// `liquid::model::Value::scalar` of a `bool`.
#[verifier::external_body]
fn liquid_bool(b: bool) -> (v: liquid::model::Value) {
    liquid::model::Value::scalar(b)
}

/// `liquid::model::Value::scalar` of an `i64`.
#[verifier::external_body]
fn liquid_int(i: i64) -> (v: liquid::model::Value) {
    liquid::model::Value::scalar(i)
}

/// `liquid::model::Value::scalar` of a text.
#[verifier::external_body]
fn liquid_text(s: &str) -> (v: liquid::model::Value) {
    liquid::model::Value::scalar(s.to_string())
}

/// `liquid::model::Value::Array` of the values in order.
#[verifier::external_body]
fn liquid_list(items: Vec<liquid::model::Value>) -> (v: liquid::model::Value) {
    liquid::model::Value::Array(items)
}

/// `liquid::Object::new`: an empty object.
#[verifier::external_body]
fn liquid_object_new() -> (o: liquid::Object) {
    liquid::Object::new()
}

/// `liquid::Object::insert`: sets `key` to `value`, replacing any value it had.
#[verifier::external_body]
fn liquid_object_insert(o: &mut liquid::Object, key: &str, value: liquid::model::Value) {
    o.insert(key.to_string().into(), value);
}

/// `liquid::model::Value::Object` of an object.
#[verifier::external_body]
fn liquid_object_value(o: liquid::Object) -> (v: liquid::model::Value) {
    liquid::model::Value::Object(o)
}

/// The template language's form of a value.
fn to_liquid(v: &PageValue) -> (out: liquid::model::Value)
    decreases v,
{
    match v {
        PageValue::Nil => liquid_nil(),
        PageValue::Bool(b) => liquid_bool(*b),
        PageValue::Int(i) => liquid_int(*i),
        PageValue::Text(s) => liquid_text(s.as_str()),
        PageValue::List(items) => liquid_list(to_liquid_list(items)),
        PageValue::Object(entries) => liquid_object_value(to_liquid_object(entries)),
    }
}

/// The template language's forms of the values, in order.
fn to_liquid_list(items: &Vec<PageValue>) -> (out: Vec<liquid::model::Value>)
    decreases items,
{
    let mut out: Vec<liquid::model::Value> = Vec::new();
    let mut i: usize = 0;
    while i < items.len()
        invariant
            i <= items@.len(),
        decreases items@.len() - i,
    {
        proof {
            assert(decreases_to!(*items => items@[i as int]));
        }
        out.push(to_liquid(&items[i]));
        i = i + 1;
    }
    out
}

/// The template language's object holding the entries; a later entry replaces an
/// earlier one of the same name.
fn to_liquid_object(entries: &Vec<(String, PageValue)>) -> (o: liquid::Object)
    decreases entries,
{
    let mut o = liquid_object_new();
    let mut i: usize = 0;
    while i < entries.len()
        invariant
            i <= entries@.len(),
        decreases entries@.len() - i,
    {
        proof {
            assert(decreases_to!(*entries => entries@[i as int].1));
        }
        let value = to_liquid(&entries[i].1);
        liquid_object_insert(&mut o, entries[i].0.as_str(), value);
        i = i + 1;
    }
    o
}


/// The step of rendering a page at which the template language failed.
#[derive(Clone, Copy, PartialEq, Eq, Structural, Debug)]
pub enum TemplateStep {
    /// Building the parser with the partials.
    BuildingCompiler,
    /// Parsing the page's template.
    Parsing,
    /// Rendering the parsed template.
    Rendering,
}

/// Whether `outcome` is one the `liquid` crate gives for a page: its parser with the
/// standard tags and filters and `partials` (name and source) parses `template` and
/// renders it with an object holding `globals` (a later entry replacing an earlier one
/// of the same name). The outcome is the page's text, or the step that failed. The
/// `date` filter can read the clock, so this holds of every outcome and two renderings
/// of the same page need not agree.
pub uninterp spec fn liquid_renders(
    template: Seq<char>,
    partials: Map<Seq<char>, Seq<char>>,
    globals: Seq<(Seq<char>, PageModel)>,
    outcome: Result<Seq<char>, TemplateStep>,
) -> bool;

/// `liquid::ParserBuilder::with_stdlib().partials(EagerCompiler::new(source)).build()`,
/// `Parser::parse` and `Template::render`: renders `template` with the partials (put in
/// an `InMemorySource`) and the globals (turned one for one into the template
/// language's values by `to_liquid_object`). Each failure gives the step at which it
/// came; a partial that does not parse fails only where a page includes it, when
/// rendering.
#[verifier::external_body]
fn render_page(template: &str, partials: &Vec<(String, String)>, globals: &Vec<(String, PageValue)>) -> (r: Result<String, TemplateStep>)
    ensures
        liquid_renders(template@, pairs_map(partials@), entries_model(globals@), match r { Ok(html) => Ok(html@), Err(step) => Err(step) }),
{
    let object = to_liquid_object(globals);
    let mut source = liquid::partials::InMemorySource::new();
    for (name, text) in partials {
        source.add(name.clone(), text.clone());
    }
    let compiler = liquid::partials::EagerCompiler::new(source);
    let parser = liquid::ParserBuilder::with_stdlib().partials(compiler).build().map_err(|_| TemplateStep::BuildingCompiler)?;
    let page = parser.parse(template).map_err(|_| TemplateStep::Parsing)?;
    page.render(&object).map_err(|_| TemplateStep::Rendering)
}

/// Whether `e` is an error the template language can give: building the parser with
/// the partials, parsing `template`, or rendering it.
pub open spec fn is_template_error(e: VentError, template: Seq<char>) -> bool {
    ||| e matches VentError::Liquid { attempt: LiquidAction::BuildingCompiler }
    ||| (e matches VentError::Liquid { attempt: LiquidAction::Parsing { text } } && text@ == template)
    ||| e matches VentError::Liquid { attempt: LiquidAction::Rendering }
}

/// What a page's rendering came to: its text, or the step at which it failed.
pub open spec fn page_outcome(r: Result<String, VentError>) -> Result<Seq<char>, TemplateStep> {
    match r {
        Ok(html) => Ok(html@),
        Err(VentError::Liquid { attempt: LiquidAction::BuildingCompiler }) => Err(TemplateStep::BuildingCompiler),
        Err(VentError::Liquid { attempt: LiquidAction::Parsing { .. } }) => Err(TemplateStep::Parsing),
        Err(_) => Err(TemplateStep::Rendering),
    }
}

/// The error of the step at which rendering `template` failed.
fn template_error(step: TemplateStep, template: &str) -> (e: VentError)
    ensures
        is_template_error(e, template@),
        page_outcome(Err(e)) == Err::<Seq<char>, TemplateStep>(step),
{
    match step {
        TemplateStep::BuildingCompiler => VentError::Liquid { attempt: LiquidAction::BuildingCompiler },
        TemplateStep::Parsing => VentError::Liquid { attempt: LiquidAction::Parsing { text: owned(template) } },
        TemplateStep::Rendering => VentError::Liquid { attempt: LiquidAction::Rendering },
    }
}

/// Renders the page template `template` with the partials and the page's own values,
/// to which the site's values are added (see `page_globals`): the template language is
/// handed exactly those, and the result is its outcome. Where it fails, the error says
/// at which step: building the parser, parsing the template (with its text), or
/// rendering it.
pub fn compile_page(
    template: &str,
    partials: &Partials,
    page: Vec<(String, PageValue)>,
    info: &SiteInfo,
    auth: &AuthObject,
    cft_sitekey: &str,
) -> (r: Result<String, VentError>)
    requires
        partials.well_formed(),
    ensures
        r matches Err(e) ==> is_template_error(e, template@),
        exists|g: Seq<(String, PageValue)>| #[trigger] are_page_globals(g, page@, *info, *auth, cft_sitekey@)
            && liquid_renders(template@, partials@, entries_model(g), page_outcome(r)),
{
    let globals = page_globals(page, info, auth, cft_sitekey);
    match render_page(template, partials.pairs(), &globals) {
        Ok(html) => Ok(html),
        Err(step) => Err(template_error(step, template)),
    }
}

} // verus!
