use vstd::prelude::*;

verus! {

/// The global configuration for the application.
pub struct Config {
    /// Key presented to the text-generation endpoint.
    pub openai_api_key: String,
    /// Location of the embedded store.
    pub database_url: String,
}

/// What a `Config` holds, as sequences of characters.
pub struct ConfigView {
    pub openai_api_key: Seq<char>,
    pub database_url: Seq<char>,
}

impl View for Config {
    type V = ConfigView;

    open spec fn view(&self) -> ConfigView {
        ConfigView { openai_api_key: self.openai_api_key@, database_url: self.database_url@ }
    }
}

impl Clone for Config {
    fn clone(&self) -> (copy: Config)
        ensures
            copy@ == self@,
    {
        Config {
            openai_api_key: self.openai_api_key.clone(),
            database_url: self.database_url.clone(),
        }
    }
}

} // verus!
