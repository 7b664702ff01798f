use vstd::prelude::*;

use crate::object::{assoc_get, assoc_set, FieldValue, FieldView, FlatObject};

verus! {

// ---------------------------------------------------------------------------
// ASCII case folding
// ---------------------------------------------------------------------------
/// One character, mapped to its ASCII lowercase equivalent.
pub open spec fn lower_char(c: char) -> char {
    if 'A' <= c && c <= 'Z' {
        ((c as u8) + 32) as char
    } else {
        c
    }
}

/// A whole string, mapped to its ASCII lowercase equivalent.
pub open spec fn ascii_lower(s: Seq<char>) -> Seq<char> {
    s.map_values(|c: char| lower_char(c))
}

/// Relies on `str::to_ascii_lowercase`: ASCII letters 'A' to 'Z' are mapped
/// to 'a' to 'z'; every other character is unchanged.
pub assume_specification[ str::to_ascii_lowercase ](s: &str) -> (r: String)
    ensures
        r@ == ascii_lower(s@),
;

// ---------------------------------------------------------------------------
// Mathematical values of the records
// ---------------------------------------------------------------------------
/// The mathematical value of a `UserProfile`.
#[verifier::ext_equal]
pub struct ProfileView {
    pub id: Seq<char>,
    pub email: Seq<char>,
    pub attributes: Option<AttributesView>,
    pub preferences: Option<PreferencesView>,
}

/// The mathematical value of a `UserAttributes`.
#[verifier::ext_equal]
pub struct AttributesView {
    pub first_name: Option<Seq<char>>,
    pub last_name: Option<Seq<char>>,
    pub extra: Seq<(Seq<char>, FieldView)>,
}

/// The mathematical value of a `UserPreferences`.
#[verifier::ext_equal]
pub struct PreferencesView {
    pub newsletter_opt_in: bool,
    pub language: Option<Seq<char>>,
    pub currency: Option<Seq<char>>,
    pub extra: Seq<(Seq<char>, FieldView)>,
}

// ---------------------------------------------------------------------------
// UserProfile
// ---------------------------------------------------------------------------
/// A user profile: identity, contact information, and optional
/// attributes and preferences. The email address is lowercased on every
/// assignment; absent attributes or preferences mean "no data", not
/// "empty data".
#[derive(Debug, PartialEq)]
pub struct UserProfile {
    /// Unique identifier for the user.
    pub id: String,
    /// User's email address (stored in lowercase).
    pub email: String,
    /// Optional user attributes (e.g., first name, last name).
    pub attributes: Option<UserAttributes>,
    /// Optional user preferences (e.g., language, newsletter settings).
    pub preferences: Option<UserPreferences>,
}

impl View for UserProfile {
    type V = ProfileView;

    open spec fn view(&self) -> ProfileView {
        ProfileView {
            id: self.id@,
            email: self.email@,
            attributes: match self.attributes {
                Some(a) => Some(a@),
                None => None,
            },
            preferences: match self.preferences {
                Some(p) => Some(p@),
                None => None,
            },
        }
    }
}

impl Clone for UserProfile {
    fn clone(&self) -> (r: Self)
        ensures
            r@ == self@,
    {
        UserProfile {
            id: self.id.clone(),
            email: self.email.clone(),
            attributes: match &self.attributes {
                Some(a) => Some(a.clone()),
                None => None,
            },
            preferences: match &self.preferences {
                Some(p) => Some(p.clone()),
                None => None,
            },
        }
    }
}

impl UserProfile {
    /// Creates a new `UserProfile` with the given ID and email.
    /// The email is stored in lowercase.
    pub fn new(id: String, email: String) -> (r: Self)
        ensures
            r@ == (ProfileView {
                id: id@,
                email: ascii_lower(email@),
                attributes: None,
                preferences: None,
            }),
    {
        UserProfile {
            id,
            email: email.as_str().to_ascii_lowercase(),
            attributes: None,
            preferences: None,
        }
    }

    /// Sets the user ID.
    pub fn set_id(&mut self, id: String)
        ensures
            final(self)@ == (ProfileView { id: id@, ..old(self)@ }),
    {
        self.id = id;
    }

    /// Returns a cloned user ID.
    pub fn get_id(&self) -> (r: String)
        ensures
            r@ == self@.id,
    {
        self.id.clone()
    }

    /// Sets the email address. It will be stored in lowercase.
    pub fn set_email(&mut self, email: String)
        ensures
            final(self)@ == (ProfileView { email: ascii_lower(email@), ..old(self)@ }),
    {
        self.email = email.as_str().to_ascii_lowercase();
    }

    /// Returns a reference to the email address.
    pub fn get_email(&self) -> (r: &str)
        ensures
            r@ == self@.email,
    {
        self.email.as_str()
    }

    /// Sets the user attributes.
    pub fn set_attributes(&mut self, attributes: Option<UserAttributes>)
        ensures
            final(self)@ == (ProfileView {
                attributes: match attributes {
                    Some(a) => Some(a@),
                    None => None,
                },
                ..old(self)@
            }),
    {
        self.attributes = attributes;
    }

    /// Returns a reference to the user attributes, if any.
    pub fn get_attributes(&self) -> (r: Option<&UserAttributes>)
        ensures
            match r {
                Some(a) => self@.attributes == Some(a@),
                None => self@.attributes is None,
            },
    {
        match &self.attributes {
            Some(a) => Some(a),
            None => None,
        }
    }

    /// Sets the user preferences.
    pub fn set_preferences(&mut self, preferences: Option<UserPreferences>)
        ensures
            final(self)@ == (ProfileView {
                preferences: match preferences {
                    Some(p) => Some(p@),
                    None => None,
                },
                ..old(self)@
            }),
    {
        self.preferences = preferences;
    }

    /// Returns a reference to the user preferences, if any.
    pub fn get_preferences(&self) -> (r: Option<&UserPreferences>)
        ensures
            match r {
                Some(p) => self@.preferences == Some(p@),
                None => self@.preferences is None,
            },
    {
        match &self.preferences {
            Some(p) => Some(p),
            None => None,
        }
    }
}

// ---------------------------------------------------------------------------
// UserAttributes
// ---------------------------------------------------------------------------
/// Optional personal attributes of a user: known name fields plus an open
/// map of custom fields.
#[derive(Debug, PartialEq)]
pub struct UserAttributes {
    /// User's first name.
    pub first_name: Option<String>,
    /// User's last name.
    pub last_name: Option<String>,
    /// A flexible map for additional custom fields.
    pub extra: FlatObject,
}

impl View for UserAttributes {
    type V = AttributesView;

    open spec fn view(&self) -> AttributesView {
        AttributesView {
            first_name: match self.first_name {
                Some(s) => Some(s@),
                None => None,
            },
            last_name: match self.last_name {
                Some(s) => Some(s@),
                None => None,
            },
            extra: self.extra@,
        }
    }
}

impl Clone for UserAttributes {
    fn clone(&self) -> (r: Self)
        ensures
            r@ == self@,
    {
        UserAttributes {
            first_name: match &self.first_name {
                Some(s) => Some(s.clone()),
                None => None,
            },
            last_name: match &self.last_name {
                Some(s) => Some(s.clone()),
                None => None,
            },
            extra: self.extra.clone(),
        }
    }
}

impl UserAttributes {
    /// Creates a new, empty set of user attributes.
    pub fn new() -> (r: Self)
        ensures
            r@ == (AttributesView {
                first_name: None,
                last_name: None,
                extra: Seq::empty(),
            }),
    {
        UserAttributes { first_name: None, last_name: None, extra: FlatObject::new() }
    }

    /// Sets the user's first name.
    pub fn set_first_name(&mut self, first_name: String)
        ensures
            final(self)@ == (AttributesView { first_name: Some(first_name@), ..old(self)@ }),
    {
        self.first_name = Some(first_name);
    }

    /// Returns a reference to the first name, if any.
    pub fn get_first_name(&self) -> (r: Option<&String>)
        ensures
            match r {
                Some(s) => self@.first_name == Some(s@),
                None => self@.first_name is None,
            },
    {
        match &self.first_name {
            Some(s) => Some(s),
            None => None,
        }
    }

    /// Sets the user's last name.
    pub fn set_last_name(&mut self, last_name: String)
        ensures
            final(self)@ == (AttributesView { last_name: Some(last_name@), ..old(self)@ }),
    {
        self.last_name = Some(last_name);
    }

    /// Returns a reference to the last name, if any.
    pub fn get_last_name(&self) -> (r: Option<&String>)
        ensures
            match r {
                Some(s) => self@.last_name == Some(s@),
                None => self@.last_name is None,
            },
    {
        match &self.last_name {
            Some(s) => Some(s),
            None => None,
        }
    }

    /// Inserts a custom attribute into the open map of extra fields.
    /// The known name fields are never affected.
    pub fn set_extra(&mut self, key: String, value: FieldValue)
        ensures
            final(self)@ == (AttributesView {
                extra: assoc_set(old(self)@.extra, key@, value@),
                ..old(self)@
            }),
    {
        self.extra.set(key, value);
    }

    /// Retrieves a custom attribute value by key.
    pub fn get_extra(&self, key: &str) -> (r: Option<&FieldValue>)
        ensures
            match r {
                Some(v) => assoc_get(self@.extra, key@) == Some(v@),
                None => assoc_get(self@.extra, key@) is None,
            },
    {
        self.extra.get(key)
    }
}

// ---------------------------------------------------------------------------
// UserPreferences
// ---------------------------------------------------------------------------
/// A user's application preferences: known settings plus an open map of
/// custom settings.
#[derive(Debug, PartialEq)]
pub struct UserPreferences {
    /// Whether the user has opted in to receive newsletters.
    pub newsletter_opt_in: bool,
    /// Preferred language (e.g., "en", "id").
    pub language: Option<String>,
    /// Preferred currency (e.g., "USD", "EUR").
    pub currency: Option<String>,
    /// Additional custom preferences.
    pub extra: FlatObject,
}

impl View for UserPreferences {
    type V = PreferencesView;

    open spec fn view(&self) -> PreferencesView {
        PreferencesView {
            newsletter_opt_in: self.newsletter_opt_in,
            language: match self.language {
                Some(s) => Some(s@),
                None => None,
            },
            currency: match self.currency {
                Some(s) => Some(s@),
                None => None,
            },
            extra: self.extra@,
        }
    }
}

impl Clone for UserPreferences {
    fn clone(&self) -> (r: Self)
        ensures
            r@ == self@,
    {
        UserPreferences {
            newsletter_opt_in: self.newsletter_opt_in,
            language: match &self.language {
                Some(s) => Some(s.clone()),
                None => None,
            },
            currency: match &self.currency {
                Some(s) => Some(s.clone()),
                None => None,
            },
            extra: self.extra.clone(),
        }
    }
}

impl Default for UserPreferences {
    fn default() -> (r: Self)
        ensures
            r@ == (PreferencesView {
                newsletter_opt_in: false,
                language: None,
                currency: None,
                extra: Seq::empty(),
            }),
    {
        UserPreferences::new()
    }
}

impl UserPreferences {
    /// Creates a new `UserPreferences` instance with default values.
    pub fn new() -> (r: Self)
        ensures
            r@ == (PreferencesView {
                newsletter_opt_in: false,
                language: None,
                currency: None,
                extra: Seq::empty(),
            }),
    {
        UserPreferences {
            newsletter_opt_in: false,
            language: None,
            currency: None,
            extra: FlatObject::new(),
        }
    }

    /// Sets the newsletter opt-in flag.
    pub fn set_newsletter_opt_in(&mut self, opt_in: bool)
        ensures
            final(self)@ == (PreferencesView { newsletter_opt_in: opt_in, ..old(self)@ }),
    {
        self.newsletter_opt_in = opt_in;
    }

    /// Returns the newsletter opt-in status.
    pub fn get_newsletter_opt_in(&self) -> (r: bool)
        ensures
            r == self@.newsletter_opt_in,
    {
        self.newsletter_opt_in
    }

    /// Sets the preferred language.
    pub fn set_language(&mut self, language: String)
        ensures
            final(self)@ == (PreferencesView { language: Some(language@), ..old(self)@ }),
    {
        self.language = Some(language);
    }

    /// Returns a reference to the preferred language, if any.
    pub fn get_language(&self) -> (r: Option<&String>)
        ensures
            match r {
                Some(s) => self@.language == Some(s@),
                None => self@.language is None,
            },
    {
        match &self.language {
            Some(s) => Some(s),
            None => None,
        }
    }

    /// Sets the preferred currency.
    pub fn set_currency(&mut self, currency: String)
        ensures
            final(self)@ == (PreferencesView { currency: Some(currency@), ..old(self)@ }),
    {
        self.currency = Some(currency);
    }

    /// Returns a reference to the preferred currency, if any.
    pub fn get_currency(&self) -> (r: Option<&String>)
        ensures
            match r {
                Some(s) => self@.currency == Some(s@),
                None => self@.currency is None,
            },
    {
        match &self.currency {
            Some(s) => Some(s),
            None => None,
        }
    }

    /// Inserts a custom preference into the open map of extra fields.
    /// The known settings are never affected.
    pub fn set_extra(&mut self, key: String, value: FieldValue)
        ensures
            final(self)@ == (PreferencesView {
                extra: assoc_set(old(self)@.extra, key@, value@),
                ..old(self)@
            }),
    {
        self.extra.set(key, value);
    }

    /// Retrieves a custom preference value by key.
    pub fn get_extra(&self, key: &str) -> (r: Option<&FieldValue>)
        ensures
            match r {
                Some(v) => assoc_get(self@.extra, key@) == Some(v@),
                None => assoc_get(self@.extra, key@) is None,
            },
    {
        self.extra.get(key)
    }
}

} // verus!
