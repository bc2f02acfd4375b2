//! The settings read from `config.toml`.
use vstd::prelude::*;

verus! {

/// How the site presents itself.
#[derive(Clone, Debug)]
pub struct BrandSettings {
    pub instance_name: String,
    pub domain: String,
    pub google_analytics: Option<String>,
}

/// Details of how pages look and whom to ask for help.
#[derive(Clone, Debug)]
pub struct NicheSettings {
    pub date_time_format: String,
    pub tech_support: String,
}

/// All the settings.
#[derive(Clone, Debug)]
pub struct Settings {
    pub niche: NicheSettings,
    pub brand: BrandSettings,
    pub mail: MailSettings,
    pub timezone_id: String,
    pub tech_support_person: String,
}

/// The account e-mails are sent from.
#[derive(Clone, Debug)]
pub struct MailSettings {
    pub username: String,
    pub password: String,
    pub smtp: String,
    pub username_domain: String,
}

} // verus!
