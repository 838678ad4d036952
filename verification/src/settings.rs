//! The startup configuration: who operates the process, the credential it
//! connects with, and the name of the shared channel.
//!
//! It is kept in a TOML document with the entries `admins`, an array of
//! strings, and `token` and `globalchat_name`, both strings.

use crate::document::{
    find_entry, is_item_list, parse_value, strings_of, table_entries, toml_parse, tree_items,
    value_tree, Tree,
};
use crate::persist::LoadError;
use crate::strings::texts;
use vstd::prelude::*;

verus! {

/// The startup configuration.
pub struct Settings {
    /// The identifiers of the operators.
    pub admins: Vec<String>,
    /// The access credential.
    pub token: String,
    /// The name of the shared channel.
    pub globalchat_name: String,
}

/// The model of the configuration.
pub struct SettingsModel {
    pub admins: Seq<Seq<char>>,
    pub token: Seq<char>,
    pub globalchat_name: Seq<char>,
}

impl View for Settings {
    type V = SettingsModel;

    open spec fn view(&self) -> SettingsModel {
        SettingsModel {
            admins: texts(self.admins@),
            token: self.token@,
            globalchat_name: self.globalchat_name@,
        }
    }
}

/// Whether a tree is the document of a configuration. Entries other than
/// the three named do not count.
pub open spec fn is_settings_tree(t: Tree) -> bool {
    &&& t is Table
    &&& t->Table_0.contains_key("admins"@)
    &&& is_item_list(t->Table_0["admins"@])
    &&& t->Table_0.contains_key("token"@)
    &&& t->Table_0["token"@] is Str
    &&& t->Table_0.contains_key("globalchat_name"@)
    &&& t->Table_0["globalchat_name"@] is Str
}

/// The configuration that a document holds, if it is the document of one.
pub open spec fn tree_settings(t: Tree) -> Option<SettingsModel> {
    if is_settings_tree(t) {
        Some(
            SettingsModel {
                admins: tree_items(t->Table_0["admins"@]),
                token: t->Table_0["token"@]->Str_0,
                globalchat_name: t->Table_0["globalchat_name"@]->Str_0,
            },
        )
    } else {
        None
    }
}

/// What loading makes of the outcome of parsing.
pub open spec fn loaded_settings(parsed: Option<Tree>) -> Result<SettingsModel, LoadError> {
    match parsed {
        None => Err(LoadError::Syntax),
        Some(t) => match tree_settings(t) {
            Some(settings) => Ok(settings),
            None => Err(LoadError::Shape),
        },
    }
}

impl Settings {
    /// The configuration that a parsed document holds; `Shape` if it is not
    /// the document of a configuration.
    pub fn from_document(document: &toml::Value) -> (r: Result<Settings, LoadError>)
        ensures
            match r {
                Ok(settings) => tree_settings(value_tree(*document)) == Some(settings@),
                Err(e) => e == LoadError::Shape && tree_settings(value_tree(*document)) is None,
            },
    {
        let top = match table_entries(document) {
            Some(entries) => entries,
            None => {
                return Err(LoadError::Shape);
            },
        };
        let admins = match find_entry(&top, "admins") {
            Some(value) => match value.as_array() {
                Some(items) => match strings_of(items) {
                    Some(list) => list,
                    None => {
                        return Err(LoadError::Shape);
                    },
                },
                None => {
                    return Err(LoadError::Shape);
                },
            },
            None => {
                return Err(LoadError::Shape);
            },
        };
        let token = match find_entry(&top, "token") {
            Some(value) => match value.as_str() {
                Some(text) => text.to_owned(),
                None => {
                    return Err(LoadError::Shape);
                },
            },
            None => {
                return Err(LoadError::Shape);
            },
        };
        let globalchat_name = match find_entry(&top, "globalchat_name") {
            Some(value) => match value.as_str() {
                Some(text) => text.to_owned(),
                None => {
                    return Err(LoadError::Shape);
                },
            },
            None => {
                return Err(LoadError::Shape);
            },
        };
        Ok(Settings { admins, token, globalchat_name })
    }

    /// The configuration held by a TOML text: `Syntax` where `toml` rejects
    /// the text, `Shape` where the document it parses is not that of a
    /// configuration.
    pub fn decode(text: &str) -> (r: Result<Settings, LoadError>)
        ensures
            match r {
                Ok(settings) => loaded_settings(toml_parse(text@)) == Ok::<
                    SettingsModel,
                    LoadError,
                >(settings@),
                Err(e) => loaded_settings(toml_parse(text@)) == Err::<SettingsModel, LoadError>(e),
            },
    {
        match parse_value(text) {
            Ok(document) => Settings::from_document(&document),
            Err(_) => Err(LoadError::Syntax),
        }
    }
}

} // verus!
