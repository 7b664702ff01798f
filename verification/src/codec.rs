use vstd::prelude::*;

use crate::error::ProfileKitError;
use crate::model::{AttributesView, PreferencesView, ProfileView};
use crate::model::{UserAttributes, UserPreferences, UserProfile};
use crate::object::{assoc_get, assoc_has, assoc_set, assoc_strip, assoc_unique};
use crate::object::{lemma_assoc_get_append, lemma_assoc_get_none, lemma_assoc_get_push};
use crate::object::{lemma_assoc_get_singleton, lemma_assoc_set_get, lemma_assoc_set_get_other};
use crate::object::{lemma_assoc_strip_all_kept, lemma_assoc_strip_append, lemma_assoc_strip_push};
use crate::object::lemma_assoc_strip_singleton;
use crate::object::{DocObject, DocValue, DocView, FieldValue, FieldView, FlatObject};

verus! {

// ---------------------------------------------------------------------------
// The serialized shape of the records
// ---------------------------------------------------------------------------
/// The serialized names of the known fields of `UserAttributes`.
pub open spec fn attr_field_names() -> Set<Seq<char>> {
    set!["first_name"@, "last_name"@]
}

/// The serialized names of the known fields of `UserPreferences`.
pub open spec fn pref_field_names() -> Set<Seq<char>> {
    set!["newsletter_opt_in"@, "language"@, "currency"@]
}

/// The entry an optional known text field contributes: nothing when the
/// field is absent, never a null.
pub open spec fn opt_text_entry(key: Seq<char>, v: Option<Seq<char>>) -> Seq<
    (Seq<char>, FieldView),
> {
    match v {
        Some(s) => seq![(key, FieldView::Text(s))],
        None => seq![],
    }
}

/// The serialized form of a `UserAttributes`: the present known fields,
/// then every extra entry, in one flat namespace.
pub open spec fn attrs_obj(a: AttributesView) -> Seq<(Seq<char>, FieldView)> {
    opt_text_entry("first_name"@, a.first_name) + opt_text_entry("last_name"@, a.last_name)
        + a.extra
}

/// The serialized form of a `UserPreferences`: `newsletter_opt_in` is
/// always present, the optional known fields only when present, then
/// every extra entry.
pub open spec fn prefs_obj(p: PreferencesView) -> Seq<(Seq<char>, FieldView)> {
    seq![("newsletter_opt_in"@, FieldView::Flag(p.newsletter_opt_in))] + opt_text_entry(
        "language"@,
        p.language,
    ) + opt_text_entry("currency"@, p.currency) + p.extra
}

/// The entry an optional nested record contributes to a profile document.
pub open spec fn opt_obj_entry(key: Seq<char>, o: Option<Seq<(Seq<char>, FieldView)>>) -> Seq<
    (Seq<char>, DocView),
> {
    match o {
        Some(entries) => seq![(key, DocView::Object(entries))],
        None => seq![],
    }
}

/// The serialized form of a whole `UserProfile`: required `id` and
/// `email`, and the nested records only when present.
pub open spec fn profile_obj(p: ProfileView) -> Seq<(Seq<char>, DocView)> {
    seq![("id"@, DocView::Text(p.id)), ("email"@, DocView::Text(p.email))] + opt_obj_entry(
        "attributes"@,
        match p.attributes {
            Some(a) => Some(attrs_obj(a)),
            None => None,
        },
    ) + opt_obj_entry(
        "preferences"@,
        match p.preferences {
            Some(q) => Some(prefs_obj(q)),
            None => None,
        },
    )
}

// ---------------------------------------------------------------------------
// Parsing serialized objects back into records
// ---------------------------------------------------------------------------
/// What an optional known text field reads from the value under its key:
/// absent is fine, a text is taken, anything else is invalid.
pub open spec fn opt_text_of(v: Option<FieldView>) -> Option<Option<Seq<char>>> {
    match v {
        None => Some(None),
        Some(FieldView::Text(s)) => Some(Some(s)),
        Some(_) => None,
    }
}

/// The `UserAttributes` a flat object describes: keys matching known
/// fields populate them, every other entry lands in the open map.
pub open spec fn attrs_parse(o: Seq<(Seq<char>, FieldView)>) -> Option<AttributesView> {
    match (opt_text_of(assoc_get(o, "first_name"@)), opt_text_of(assoc_get(o, "last_name"@))) {
        (Some(f), Some(l)) => Some(
            AttributesView { first_name: f, last_name: l, extra: assoc_strip(o, attr_field_names()) },
        ),
        _ => None,
    }
}

/// The `UserPreferences` a flat object describes; `newsletter_opt_in`
/// must be present and boolean.
pub open spec fn prefs_parse(o: Seq<(Seq<char>, FieldView)>) -> Option<PreferencesView> {
    match (
        assoc_get(o, "newsletter_opt_in"@),
        opt_text_of(assoc_get(o, "language"@)),
        opt_text_of(assoc_get(o, "currency"@)),
    ) {
        (Some(FieldView::Flag(b)), Some(l), Some(c)) => Some(
            PreferencesView {
                newsletter_opt_in: b,
                language: l,
                currency: c,
                extra: assoc_strip(o, pref_field_names()),
            },
        ),
        _ => None,
    }
}

/// What the optional `attributes` section reads from the value under its
/// key: absent is fine, a well-formed object is taken, anything else is
/// invalid.
pub open spec fn opt_attrs_parse(v: Option<DocView>) -> Option<Option<AttributesView>> {
    match v {
        None => Some(None),
        Some(DocView::Object(o)) => match attrs_parse(o) {
            Some(a) => Some(Some(a)),
            None => None,
        },
        Some(_) => None,
    }
}

/// What the optional `preferences` section reads from the value under
/// its key.
pub open spec fn opt_prefs_parse(v: Option<DocView>) -> Option<Option<PreferencesView>> {
    match v {
        None => Some(None),
        Some(DocView::Object(o)) => match prefs_parse(o) {
            Some(p) => Some(Some(p)),
            None => None,
        },
        Some(_) => None,
    }
}

/// The `UserProfile` a document describes: `id` and `email` must be
/// present texts, the nested sections are optional, every unknown key is
/// ignored.
pub open spec fn profile_parse(o: Seq<(Seq<char>, DocView)>) -> Option<ProfileView> {
    match (
        assoc_get(o, "id"@),
        assoc_get(o, "email"@),
        opt_attrs_parse(assoc_get(o, "attributes"@)),
        opt_prefs_parse(assoc_get(o, "preferences"@)),
    ) {
        (Some(DocView::Text(id)), Some(DocView::Text(email)), Some(a), Some(q)) => Some(
            ProfileView { id, email, attributes: a, preferences: q },
        ),
        _ => None,
    }
}


/// The serialized names of all known fields are pairwise distinct.
proof fn lemma_distinct_field_names()
    ensures
        "first_name"@ != "last_name"@,
        "newsletter_opt_in"@ != "language"@,
        "newsletter_opt_in"@ != "currency"@,
        "language"@ != "currency"@,
        "id"@ != "email"@,
        "id"@ != "attributes"@,
        "id"@ != "preferences"@,
        "email"@ != "attributes"@,
        "email"@ != "preferences"@,
        "attributes"@ != "preferences"@,
{
    reveal_strlit("first_name");
    reveal_strlit("last_name");
    reveal_strlit("newsletter_opt_in");
    reveal_strlit("language");
    reveal_strlit("currency");
    reveal_strlit("id");
    reveal_strlit("email");
    reveal_strlit("attributes");
    reveal_strlit("preferences");
    assert("first_name"@.len() == 10);
    assert("last_name"@.len() == 9);
    assert("newsletter_opt_in"@.len() == 17);
    assert("language"@[0] == 'l');
    assert("currency"@[0] == 'c');
    assert("id"@.len() == 2);
    assert("email"@.len() == 5);
    assert("attributes"@.len() == 10);
    assert("preferences"@.len() == 11);
    assert("attributes"@[0] == 'a');
    assert("first_name"@[0] == 'f');
}

// ---------------------------------------------------------------------------
// Serialization
// ---------------------------------------------------------------------------
impl UserAttributes {
    /// Serializes the attributes into one flat object: present known
    /// fields first, then the open map, absent fields omitted.
    pub fn to_object(&self) -> (r: FlatObject)
        ensures
            r@ == attrs_obj(self@),
    {
        let mut obj = FlatObject::new();
        if let Some(f) = &self.first_name {
            obj.push_entry("first_name".to_owned(), FieldValue::Text(f.clone()));
        }
        if let Some(l) = &self.last_name {
            obj.push_entry("last_name".to_owned(), FieldValue::Text(l.clone()));
        }
        proof {
            assert(obj@ =~= opt_text_entry("first_name"@, self@.first_name) + opt_text_entry(
                "last_name"@,
                self@.last_name,
            ));
        }
        let ghost known = obj@;
        let mut i: usize = 0;
        while i < self.extra.len()
            invariant
                0 <= i <= self.extra@.len(),
                obj@ == known + self.extra@.take(i as int),
            decreases self.extra@.len() - i,
        {
            let e = self.extra.entry(i);
            obj.push_entry(e.0.clone(), e.1.clone());
            proof {
                assert(known + self.extra@.take(i as int).push(self.extra@[i as int]) =~= known
                    + self.extra@.take(i + 1 as int));
            }
            i += 1;
        }
        proof {
            assert(self.extra@.take(self.extra@.len() as int) =~= self.extra@);
            assert(obj@ =~= attrs_obj(self@));
        }
        obj
    }
}

impl UserPreferences {
    /// Serializes the preferences into one flat object:
    /// `newsletter_opt_in` always, the other known fields when present,
    /// then the open map.
    pub fn to_object(&self) -> (r: FlatObject)
        ensures
            r@ == prefs_obj(self@),
    {
        let mut obj = FlatObject::new();
        obj.push_entry("newsletter_opt_in".to_owned(), FieldValue::Flag(self.newsletter_opt_in));
        if let Some(l) = &self.language {
            obj.push_entry("language".to_owned(), FieldValue::Text(l.clone()));
        }
        if let Some(c) = &self.currency {
            obj.push_entry("currency".to_owned(), FieldValue::Text(c.clone()));
        }
        proof {
            assert(obj@ =~= seq![
                ("newsletter_opt_in"@, FieldView::Flag(self@.newsletter_opt_in)),
            ] + opt_text_entry("language"@, self@.language) + opt_text_entry(
                "currency"@,
                self@.currency,
            ));
        }
        let ghost known = obj@;
        let mut i: usize = 0;
        while i < self.extra.len()
            invariant
                0 <= i <= self.extra@.len(),
                obj@ == known + self.extra@.take(i as int),
            decreases self.extra@.len() - i,
        {
            let e = self.extra.entry(i);
            obj.push_entry(e.0.clone(), e.1.clone());
            proof {
                assert(known + self.extra@.take(i as int).push(self.extra@[i as int]) =~= known
                    + self.extra@.take(i + 1 as int));
            }
            i += 1;
        }
        proof {
            assert(self.extra@.take(self.extra@.len() as int) =~= self.extra@);
            assert(obj@ =~= prefs_obj(self@));
        }
        obj
    }
}

impl UserProfile {
    /// Serializes the profile into a document: required `id` and
    /// `email`, and each nested record only when present.
    pub fn to_object(&self) -> (r: DocObject)
        ensures
            r@ == profile_obj(self@),
    {
        let mut doc = DocObject::new();
        doc.push_entry("id".to_owned(), DocValue::Text(self.id.clone()));
        doc.push_entry("email".to_owned(), DocValue::Text(self.email.clone()));
        if let Some(a) = &self.attributes {
            doc.push_entry("attributes".to_owned(), DocValue::Object(a.to_object()));
        }
        if let Some(p) = &self.preferences {
            doc.push_entry("preferences".to_owned(), DocValue::Object(p.to_object()));
        }
        proof {
            assert(doc@ =~= profile_obj(self@));
        }
        doc
    }
}

// ---------------------------------------------------------------------------
// Deserialization
// ---------------------------------------------------------------------------
impl UserAttributes {
    /// Reconstructs attributes from a flat object: the first entry under a
    /// known field name populates that field, every other entry lands in
    /// the open map verbatim. A known field carrying a non-text value is
    /// rejected as `InvalidInput`.
    #[verifier::loop_isolation(false)]
    pub fn from_object(obj: FlatObject) -> (r: Result<UserAttributes, ProfileKitError>)
        ensures
            match attrs_parse(obj@) {
                Some(a) => r matches Ok(x) && x@ == a,
                None => r matches Err(e) && e is InvalidInput,
            },
    {
        proof {
            lemma_distinct_field_names();
        }
        let ghost all = obj@;
        let key_first = "first_name".to_owned();
        let key_last = "last_name".to_owned();
        let mut first_name: Option<String> = None;
        let mut last_name: Option<String> = None;
        let mut extra = FlatObject::new();
        let mut rest = obj;
        let ghost mut done = Seq::<(Seq<char>, FieldView)>::empty();
        loop
            invariant
                key_first@ == "first_name"@,
                key_last@ == "last_name"@,
                all == done + rest@,
                match first_name {
                    Some(s) => assoc_get(done, "first_name"@) == Some(FieldView::Text(s@)),
                    None => assoc_get(done, "first_name"@) is None,
                },
                match last_name {
                    Some(s) => assoc_get(done, "last_name"@) == Some(FieldView::Text(s@)),
                    None => assoc_get(done, "last_name"@) is None,
                },
                extra@ == assoc_strip(done, attr_field_names()),
            decreases rest@.len(),
        {
            let next = rest.pop_front();
            match next {
                None => { break; }
                Some((k, v)) => {
                    let ghost entry = (k@, v@);
                    proof {
                        assert(all =~= done.push(entry) + rest@);
                        lemma_assoc_get_push(done, entry, "first_name"@);
                        lemma_assoc_get_push(done, entry, "last_name"@);
                        lemma_assoc_strip_push(done, entry, attr_field_names());
                    }
                    if k == key_first {
                        if first_name.is_none() {
                            match v {
                                FieldValue::Text(s) => { first_name = Some(s); }
                                _ => {
                                    proof {
                                        lemma_assoc_get_append(done.push(entry), rest@, "first_name"@);
                                    }
                                    return Err(ProfileKitError::InvalidInput(
                                        "attributes: invalid value for a known field".to_owned(),
                                    ));
                                }
                            }
                        }
                    } else if k == key_last {
                        if last_name.is_none() {
                            match v {
                                FieldValue::Text(s) => { last_name = Some(s); }
                                _ => {
                                    proof {
                                        lemma_assoc_get_append(done.push(entry), rest@, "last_name"@);
                                    }
                                    return Err(ProfileKitError::InvalidInput(
                                        "attributes: invalid value for a known field".to_owned(),
                                    ));
                                }
                            }
                        }
                    } else {
                        extra.push_entry(k, v);
                    }
                    proof {
                        done = done.push(entry);
                    }
                }
            }
        }
        proof {
            assert(all =~= done);
        }
        let result = UserAttributes { first_name, last_name, extra };
        proof {
            assert(match attrs_parse(all) {
                Some(a) => result@ =~= a,
                None => false,
            });
        }
        Ok(result)
    }
}

impl UserPreferences {
    /// Reconstructs preferences from a flat object: the first entry under
    /// a known field name populates that field, every other entry lands
    /// in the open map verbatim. A missing or non-boolean
    /// `newsletter_opt_in`, or a non-text optional field, is rejected as
    /// `InvalidInput`.
    #[verifier::loop_isolation(false)]
    pub fn from_object(obj: FlatObject) -> (r: Result<UserPreferences, ProfileKitError>)
        ensures
            match prefs_parse(obj@) {
                Some(p) => r matches Ok(x) && x@ == p,
                None => r matches Err(e) && e is InvalidInput,
            },
    {
        proof {
            lemma_distinct_field_names();
        }
        let ghost all = obj@;
        let key_opt_in = "newsletter_opt_in".to_owned();
        let key_language = "language".to_owned();
        let key_currency = "currency".to_owned();
        let mut newsletter_opt_in: Option<bool> = None;
        let mut language: Option<String> = None;
        let mut currency: Option<String> = None;
        let mut extra = FlatObject::new();
        let mut rest = obj;
        let ghost mut done = Seq::<(Seq<char>, FieldView)>::empty();
        loop
            invariant
                key_opt_in@ == "newsletter_opt_in"@,
                key_language@ == "language"@,
                key_currency@ == "currency"@,
                all == done + rest@,
                match newsletter_opt_in {
                    Some(b) => assoc_get(done, "newsletter_opt_in"@) == Some(FieldView::Flag(b)),
                    None => assoc_get(done, "newsletter_opt_in"@) is None,
                },
                match language {
                    Some(s) => assoc_get(done, "language"@) == Some(FieldView::Text(s@)),
                    None => assoc_get(done, "language"@) is None,
                },
                match currency {
                    Some(s) => assoc_get(done, "currency"@) == Some(FieldView::Text(s@)),
                    None => assoc_get(done, "currency"@) is None,
                },
                extra@ == assoc_strip(done, pref_field_names()),
            decreases rest@.len(),
        {
            let next = rest.pop_front();
            match next {
                None => { break; }
                Some((k, v)) => {
                    let ghost entry = (k@, v@);
                    proof {
                        assert(all =~= done.push(entry) + rest@);
                        lemma_assoc_get_push(done, entry, "newsletter_opt_in"@);
                        lemma_assoc_get_push(done, entry, "language"@);
                        lemma_assoc_get_push(done, entry, "currency"@);
                        lemma_assoc_strip_push(done, entry, pref_field_names());
                    }
                    if k == key_opt_in {
                        if newsletter_opt_in.is_none() {
                            match v {
                                FieldValue::Flag(b) => { newsletter_opt_in = Some(b); }
                                _ => {
                                    proof {
                                        lemma_assoc_get_append(
                                            done.push(entry),
                                            rest@,
                                            "newsletter_opt_in"@,
                                        );
                                    }
                                    return Err(ProfileKitError::InvalidInput(
                                        "preferences: invalid value for a known field".to_owned(),
                                    ));
                                }
                            }
                        }
                    } else if k == key_language {
                        if language.is_none() {
                            match v {
                                FieldValue::Text(s) => { language = Some(s); }
                                _ => {
                                    proof {
                                        lemma_assoc_get_append(done.push(entry), rest@, "language"@);
                                    }
                                    return Err(ProfileKitError::InvalidInput(
                                        "preferences: invalid value for a known field".to_owned(),
                                    ));
                                }
                            }
                        }
                    } else if k == key_currency {
                        if currency.is_none() {
                            match v {
                                FieldValue::Text(s) => { currency = Some(s); }
                                _ => {
                                    proof {
                                        lemma_assoc_get_append(done.push(entry), rest@, "currency"@);
                                    }
                                    return Err(ProfileKitError::InvalidInput(
                                        "preferences: invalid value for a known field".to_owned(),
                                    ));
                                }
                            }
                        }
                    } else {
                        extra.push_entry(k, v);
                    }
                    proof {
                        done = done.push(entry);
                    }
                }
            }
        }
        proof {
            assert(all =~= done);
        }
        let opt_in = match newsletter_opt_in {
            Some(b) => b,
            None => {
                return Err(ProfileKitError::InvalidInput(
                    "preferences: newsletter_opt_in is missing".to_owned(),
                ));
            }
        };
        let result = UserPreferences { newsletter_opt_in: opt_in, language, currency, extra };
        proof {
            assert(match prefs_parse(all) {
                Some(p) => result@ =~= p,
                None => false,
            });
        }
        Ok(result)
    }
}

impl UserProfile {
    /// Reconstructs a profile from a document: `id` and `email` must be
    /// present texts, the nested sections are parsed when present, and
    /// every unknown key is ignored. Anything else is rejected as
    /// `InvalidInput`.
    #[verifier::loop_isolation(false)]
    pub fn from_object(obj: DocObject) -> (r: Result<UserProfile, ProfileKitError>)
        ensures
            match profile_parse(obj@) {
                Some(p) => r matches Ok(x) && x@ == p,
                None => r matches Err(e) && e is InvalidInput,
            },
    {
        proof {
            lemma_distinct_field_names();
        }
        let ghost all = obj@;
        let key_id = "id".to_owned();
        let key_email = "email".to_owned();
        let key_attributes = "attributes".to_owned();
        let key_preferences = "preferences".to_owned();
        let mut id: Option<String> = None;
        let mut email: Option<String> = None;
        let mut attributes: Option<UserAttributes> = None;
        let mut preferences: Option<UserPreferences> = None;
        let mut rest = obj;
        let ghost mut done = Seq::<(Seq<char>, DocView)>::empty();
        loop
            invariant
                key_id@ == "id"@,
                key_email@ == "email"@,
                key_attributes@ == "attributes"@,
                key_preferences@ == "preferences"@,
                all == done + rest@,
                match id {
                    Some(s) => assoc_get(done, "id"@) == Some(DocView::Text(s@)),
                    None => assoc_get(done, "id"@) is None,
                },
                match email {
                    Some(s) => assoc_get(done, "email"@) == Some(DocView::Text(s@)),
                    None => assoc_get(done, "email"@) is None,
                },
                match attributes {
                    Some(a) => opt_attrs_parse(assoc_get(done, "attributes"@)) == Some(Some(a@)),
                    None => assoc_get(done, "attributes"@) is None,
                },
                match preferences {
                    Some(p) => opt_prefs_parse(assoc_get(done, "preferences"@)) == Some(Some(p@)),
                    None => assoc_get(done, "preferences"@) is None,
                },
            decreases rest@.len(),
        {
            let next = rest.pop_front();
            match next {
                None => { break; }
                Some((k, v)) => {
                    let ghost entry = (k@, v@);
                    proof {
                        assert(all =~= done.push(entry) + rest@);
                        lemma_assoc_get_push(done, entry, "id"@);
                        lemma_assoc_get_push(done, entry, "email"@);
                        lemma_assoc_get_push(done, entry, "attributes"@);
                        lemma_assoc_get_push(done, entry, "preferences"@);
                    }
                    if k == key_id {
                        if id.is_none() {
                            match v {
                                DocValue::Text(s) => { id = Some(s); }
                                _ => {
                                    proof {
                                        lemma_assoc_get_append(done.push(entry), rest@, "id"@);
                                    }
                                    return Err(ProfileKitError::InvalidInput(
                                        "profile: invalid value for a known field".to_owned(),
                                    ));
                                }
                            }
                        }
                    } else if k == key_email {
                        if email.is_none() {
                            match v {
                                DocValue::Text(s) => { email = Some(s); }
                                _ => {
                                    proof {
                                        lemma_assoc_get_append(done.push(entry), rest@, "email"@);
                                    }
                                    return Err(ProfileKitError::InvalidInput(
                                        "profile: invalid value for a known field".to_owned(),
                                    ));
                                }
                            }
                        }
                    } else if k == key_attributes {
                        if attributes.is_none() {
                            match v {
                                DocValue::Object(fo) => {
                                    match UserAttributes::from_object(fo) {
                                        Ok(a) => { attributes = Some(a); }
                                        Err(e) => {
                                            proof {
                                                lemma_assoc_get_append(
                                                    done.push(entry),
                                                    rest@,
                                                    "attributes"@,
                                                );
                                            }
                                            return Err(e);
                                        }
                                    }
                                }
                                _ => {
                                    proof {
                                        lemma_assoc_get_append(done.push(entry), rest@, "attributes"@);
                                    }
                                    return Err(ProfileKitError::InvalidInput(
                                        "profile: invalid value for a known field".to_owned(),
                                    ));
                                }
                            }
                        }
                    } else if k == key_preferences {
                        if preferences.is_none() {
                            match v {
                                DocValue::Object(fo) => {
                                    match UserPreferences::from_object(fo) {
                                        Ok(p) => { preferences = Some(p); }
                                        Err(e) => {
                                            proof {
                                                lemma_assoc_get_append(
                                                    done.push(entry),
                                                    rest@,
                                                    "preferences"@,
                                                );
                                            }
                                            return Err(e);
                                        }
                                    }
                                }
                                _ => {
                                    proof {
                                        lemma_assoc_get_append(done.push(entry), rest@, "preferences"@);
                                    }
                                    return Err(ProfileKitError::InvalidInput(
                                        "profile: invalid value for a known field".to_owned(),
                                    ));
                                }
                            }
                        }
                    }
                    proof {
                        done = done.push(entry);
                    }
                }
            }
        }
        proof {
            assert(all =~= done);
        }
        let id_value = match id {
            Some(s) => s,
            None => {
                return Err(ProfileKitError::InvalidInput("profile: id is missing".to_owned()));
            }
        };
        let email_value = match email {
            Some(s) => s,
            None => {
                return Err(ProfileKitError::InvalidInput("profile: email is missing".to_owned()));
            }
        };
        let result = UserProfile { id: id_value, email: email_value, attributes, preferences };
        proof {
            assert(match profile_parse(all) {
                Some(p) => result@ =~= p,
                None => false,
            });
        }
        Ok(result)
    }
}


// ---------------------------------------------------------------------------
// Laws of the serialized form
// ---------------------------------------------------------------------------
/// The open map of an attributes record avoids the known field names.
pub open spec fn attrs_extra_ok(a: AttributesView) -> bool {
    forall|i: int|
        0 <= i < a.extra.len() ==> !attr_field_names().contains((#[trigger] a.extra[i]).0)
}

/// The open map of a preferences record avoids the known field names.
pub open spec fn prefs_extra_ok(p: PreferencesView) -> bool {
    forall|i: int|
        0 <= i < p.extra.len() ==> !pref_field_names().contains((#[trigger] p.extra[i]).0)
}

/// Both open maps of a profile avoid their records' known field names.
pub open spec fn profile_extra_ok(p: ProfileView) -> bool {
    &&& match p.attributes {
        Some(a) => attrs_extra_ok(a),
        None => true,
    }
    &&& match p.preferences {
        Some(q) => prefs_extra_ok(q),
        None => true,
    }
}

/// Round trip for attributes: for every record whose extra keys avoid the
/// known field names, parsing the serialized form yields the record back,
/// with no key lost and none duplicated into the open map.
pub proof fn lemma_attrs_round_trip(a: AttributesView)
    requires
        attrs_extra_ok(a),
    ensures
        attrs_parse(attrs_obj(a)) == Some(a),
{
    lemma_distinct_field_names();
    let names = attr_field_names();
    let e1 = opt_text_entry("first_name"@, a.first_name);
    let e2 = opt_text_entry("last_name"@, a.last_name);
    let known = e1 + e2;
    let o = attrs_obj(a);
    assert(o == known + a.extra);
    match a.first_name {
        Some(s) => {
            lemma_assoc_get_singleton(("first_name"@, FieldView::Text(s)), "first_name"@);
            lemma_assoc_get_singleton(("first_name"@, FieldView::Text(s)), "last_name"@);
            lemma_assoc_strip_singleton(("first_name"@, FieldView::Text(s)), names);
        }
        None => {
            assert(assoc_get(Seq::<(Seq<char>, FieldView)>::empty(), "first_name"@) is None);
            assert(assoc_get(Seq::<(Seq<char>, FieldView)>::empty(), "last_name"@) is None);
        }
    }
    match a.last_name {
        Some(s) => {
            lemma_assoc_get_singleton(("last_name"@, FieldView::Text(s)), "first_name"@);
            lemma_assoc_get_singleton(("last_name"@, FieldView::Text(s)), "last_name"@);
            lemma_assoc_strip_singleton(("last_name"@, FieldView::Text(s)), names);
        }
        None => {
        }
    }
    assert(forall|i: int| 0 <= i < a.extra.len() ==> (#[trigger] a.extra[i]).0 != "first_name"@)
        by {
        assert(names.contains("first_name"@));
    }
    assert(forall|i: int| 0 <= i < a.extra.len() ==> (#[trigger] a.extra[i]).0 != "last_name"@) by {
        assert(names.contains("last_name"@));
    }
    lemma_assoc_get_none(a.extra, "first_name"@);
    lemma_assoc_get_none(a.extra, "last_name"@);
    lemma_assoc_get_append(e1, e2, "first_name"@);
    lemma_assoc_get_append(e1, e2, "last_name"@);
    lemma_assoc_get_append(known, a.extra, "first_name"@);
    lemma_assoc_get_append(known, a.extra, "last_name"@);
    assert(opt_text_of(assoc_get(o, "first_name"@)) == Some(a.first_name));
    assert(opt_text_of(assoc_get(o, "last_name"@)) == Some(a.last_name));
    lemma_assoc_strip_append(e1, e2, names);
    lemma_assoc_strip_append(known, a.extra, names);
    lemma_assoc_strip_all_kept(a.extra, names);
    assert(assoc_strip(known, names) =~= Seq::<(Seq<char>, FieldView)>::empty());
    assert(assoc_strip(o, names) =~= a.extra);
    assert((AttributesView { first_name: a.first_name, last_name: a.last_name, extra: a.extra })
        =~= a);
}

/// Round trip for preferences, under the same condition on extra keys.
pub proof fn lemma_prefs_round_trip(p: PreferencesView)
    requires
        prefs_extra_ok(p),
    ensures
        prefs_parse(prefs_obj(p)) == Some(p),
{
    lemma_distinct_field_names();
    let names = pref_field_names();
    let e0 = seq![("newsletter_opt_in"@, FieldView::Flag(p.newsletter_opt_in))];
    let e1 = opt_text_entry("language"@, p.language);
    let e2 = opt_text_entry("currency"@, p.currency);
    let known = e0 + e1 + e2;
    let o = prefs_obj(p);
    assert(o == known + p.extra);
    lemma_assoc_get_singleton(e0[0], "newsletter_opt_in"@);
    lemma_assoc_get_singleton(e0[0], "language"@);
    lemma_assoc_get_singleton(e0[0], "currency"@);
    lemma_assoc_strip_singleton(e0[0], names);
    assert(e0 =~= seq![e0[0]]);
    match p.language {
        Some(s) => {
            lemma_assoc_get_singleton(("language"@, FieldView::Text(s)), "newsletter_opt_in"@);
            lemma_assoc_get_singleton(("language"@, FieldView::Text(s)), "language"@);
            lemma_assoc_get_singleton(("language"@, FieldView::Text(s)), "currency"@);
            lemma_assoc_strip_singleton(("language"@, FieldView::Text(s)), names);
        }
        None => {
            assert(assoc_get(Seq::<(Seq<char>, FieldView)>::empty(), "language"@) is None);
            assert(assoc_get(Seq::<(Seq<char>, FieldView)>::empty(), "currency"@) is None);
        }
    }
    match p.currency {
        Some(s) => {
            lemma_assoc_get_singleton(("currency"@, FieldView::Text(s)), "newsletter_opt_in"@);
            lemma_assoc_get_singleton(("currency"@, FieldView::Text(s)), "language"@);
            lemma_assoc_get_singleton(("currency"@, FieldView::Text(s)), "currency"@);
            lemma_assoc_strip_singleton(("currency"@, FieldView::Text(s)), names);
        }
        None => {
            assert(assoc_get(Seq::<(Seq<char>, FieldView)>::empty(), "newsletter_opt_in"@)
                is None);
        }
    }
    assert(forall|i: int|
        0 <= i < p.extra.len() ==> (#[trigger] p.extra[i]).0 != "newsletter_opt_in"@) by {
        assert(names.contains("newsletter_opt_in"@));
    }
    assert(forall|i: int| 0 <= i < p.extra.len() ==> (#[trigger] p.extra[i]).0 != "language"@) by {
        assert(names.contains("language"@));
    }
    assert(forall|i: int| 0 <= i < p.extra.len() ==> (#[trigger] p.extra[i]).0 != "currency"@) by {
        assert(names.contains("currency"@));
    }
    lemma_assoc_get_none(p.extra, "newsletter_opt_in"@);
    lemma_assoc_get_none(p.extra, "language"@);
    lemma_assoc_get_none(p.extra, "currency"@);
    lemma_assoc_get_append(e0, e1, "newsletter_opt_in"@);
    lemma_assoc_get_append(e0, e1, "language"@);
    lemma_assoc_get_append(e0, e1, "currency"@);
    lemma_assoc_get_append(e0 + e1, e2, "newsletter_opt_in"@);
    lemma_assoc_get_append(e0 + e1, e2, "language"@);
    lemma_assoc_get_append(e0 + e1, e2, "currency"@);
    lemma_assoc_get_append(known, p.extra, "newsletter_opt_in"@);
    lemma_assoc_get_append(known, p.extra, "language"@);
    lemma_assoc_get_append(known, p.extra, "currency"@);
    assert(assoc_get(o, "newsletter_opt_in"@) == Some(
        FieldView::Flag(p.newsletter_opt_in),
    ));
    assert(opt_text_of(assoc_get(o, "language"@)) == Some(p.language));
    assert(opt_text_of(assoc_get(o, "currency"@)) == Some(p.currency));
    lemma_assoc_strip_append(e0, e1, names);
    lemma_assoc_strip_append(e0 + e1, e2, names);
    lemma_assoc_strip_append(known, p.extra, names);
    lemma_assoc_strip_all_kept(p.extra, names);
    assert(assoc_strip(known, names) =~= Seq::<(Seq<char>, FieldView)>::empty());
    assert(assoc_strip(o, names) =~= p.extra);
    assert((PreferencesView {
        newsletter_opt_in: p.newsletter_opt_in,
        language: p.language,
        currency: p.currency,
        extra: p.extra,
    }) =~= p);
}

/// Round trip for a whole profile: for every profile whose open maps
/// avoid their known field names, parsing the serialized document yields
/// the profile back, for any combination of present and absent sections.
pub proof fn lemma_profile_round_trip(p: ProfileView)
    requires
        profile_extra_ok(p),
    ensures
        profile_parse(profile_obj(p)) == Some(p),
{
    lemma_distinct_field_names();
    let e0 = seq![("id"@, DocView::Text(p.id)), ("email"@, DocView::Text(p.email))];
    let e1 = opt_obj_entry(
        "attributes"@,
        match p.attributes {
            Some(a) => Some(attrs_obj(a)),
            None => None,
        },
    );
    let e2 = opt_obj_entry(
        "preferences"@,
        match p.preferences {
            Some(q) => Some(prefs_obj(q)),
            None => None,
        },
    );
    let o = profile_obj(p);
    assert(o == e0 + e1 + e2);
    assert(e0[0] == ("id"@, DocView::Text(p.id)));
    assert(e0[1] == ("email"@, DocView::Text(p.email)));
    assert(e0.drop_first() =~= seq![("email"@, DocView::Text(p.email))]);
    lemma_assoc_get_singleton(("email"@, DocView::Text(p.email)), "email"@);
    lemma_assoc_get_singleton(("email"@, DocView::Text(p.email)), "attributes"@);
    lemma_assoc_get_singleton(("email"@, DocView::Text(p.email)), "preferences"@);
    assert(assoc_get(e0, "id"@) == Some(DocView::Text(p.id)));
    assert(assoc_get(e0, "email"@) == Some(DocView::Text(p.email)));
    assert(assoc_get(e0, "attributes"@) is None);
    assert(assoc_get(e0, "preferences"@) is None);
    match p.attributes {
        Some(a) => {
            let e = ("attributes"@, DocView::Object(attrs_obj(a)));
            lemma_assoc_get_singleton(e, "id"@);
            lemma_assoc_get_singleton(e, "email"@);
            lemma_assoc_get_singleton(e, "attributes"@);
            lemma_assoc_get_singleton(e, "preferences"@);
            lemma_attrs_round_trip(a);
        }
        None => {
            assert(assoc_get(Seq::<(Seq<char>, DocView)>::empty(), "attributes"@) is None);
            assert(assoc_get(Seq::<(Seq<char>, DocView)>::empty(), "preferences"@) is None);
            assert(assoc_get(Seq::<(Seq<char>, DocView)>::empty(), "id"@) is None);
            assert(assoc_get(Seq::<(Seq<char>, DocView)>::empty(), "email"@) is None);
        }
    }
    match p.preferences {
        Some(q) => {
            let e = ("preferences"@, DocView::Object(prefs_obj(q)));
            lemma_assoc_get_singleton(e, "id"@);
            lemma_assoc_get_singleton(e, "email"@);
            lemma_assoc_get_singleton(e, "attributes"@);
            lemma_assoc_get_singleton(e, "preferences"@);
            lemma_prefs_round_trip(q);
        }
        None => {
            assert(assoc_get(Seq::<(Seq<char>, DocView)>::empty(), "id"@) is None);
        }
    }
    lemma_assoc_get_append(e0, e1, "id"@);
    lemma_assoc_get_append(e0, e1, "email"@);
    lemma_assoc_get_append(e0, e1, "attributes"@);
    lemma_assoc_get_append(e0, e1, "preferences"@);
    lemma_assoc_get_append(e0 + e1, e2, "id"@);
    lemma_assoc_get_append(e0 + e1, e2, "email"@);
    lemma_assoc_get_append(e0 + e1, e2, "attributes"@);
    lemma_assoc_get_append(e0 + e1, e2, "preferences"@);
    assert(assoc_get(o, "id"@) == Some(DocView::Text(p.id)));
    assert(assoc_get(o, "email"@) == Some(DocView::Text(p.email)));
    assert(opt_attrs_parse(assoc_get(o, "attributes"@)) == Some(p.attributes));
    assert(opt_prefs_parse(assoc_get(o, "preferences"@)) == Some(p.preferences));
    assert((ProfileView {
        id: p.id,
        email: p.email,
        attributes: p.attributes,
        preferences: p.preferences,
    }) =~= p);
}

/// Omission: a profile with an absent section produces no key for it at
/// all, and a present section stands under its key as one nested object.
pub proof fn lemma_absent_sections_omitted(p: ProfileView)
    ensures
        p.attributes is None ==> !assoc_has(profile_obj(p), "attributes"@),
        p.preferences is None ==> !assoc_has(profile_obj(p), "preferences"@),
        p.attributes matches Some(a) ==> assoc_get(profile_obj(p), "attributes"@) == Some(
            DocView::Object(attrs_obj(a)),
        ),
        p.preferences matches Some(q) ==> assoc_get(profile_obj(p), "preferences"@) == Some(
            DocView::Object(prefs_obj(q)),
        ),
{
    lemma_distinct_field_names();
    let e0 = seq![("id"@, DocView::Text(p.id)), ("email"@, DocView::Text(p.email))];
    let e1 = opt_obj_entry(
        "attributes"@,
        match p.attributes {
            Some(a) => Some(attrs_obj(a)),
            None => None,
        },
    );
    let e2 = opt_obj_entry(
        "preferences"@,
        match p.preferences {
            Some(q) => Some(prefs_obj(q)),
            None => None,
        },
    );
    assert(profile_obj(p) == e0 + e1 + e2);
    assert(e0[0] == ("id"@, DocView::Text(p.id)));
    assert(e0[1] == ("email"@, DocView::Text(p.email)));
    assert(e0.drop_first() =~= seq![("email"@, DocView::Text(p.email))]);
    lemma_assoc_get_singleton(("email"@, DocView::Text(p.email)), "attributes"@);
    lemma_assoc_get_singleton(("email"@, DocView::Text(p.email)), "preferences"@);
    match p.attributes {
        Some(a) => {
            let e = ("attributes"@, DocView::Object(attrs_obj(a)));
            lemma_assoc_get_singleton(e, "attributes"@);
            lemma_assoc_get_singleton(e, "preferences"@);
        }
        None => {
            assert(assoc_get(Seq::<(Seq<char>, DocView)>::empty(), "attributes"@) is None);
            assert(assoc_get(Seq::<(Seq<char>, DocView)>::empty(), "preferences"@) is None);
        }
    }
    match p.preferences {
        Some(q) => {
            let e = ("preferences"@, DocView::Object(prefs_obj(q)));
            lemma_assoc_get_singleton(e, "attributes"@);
            lemma_assoc_get_singleton(e, "preferences"@);
        }
        None => {
            assert(assoc_get(Seq::<(Seq<char>, DocView)>::empty(), "attributes"@) is None);
        }
    }
    lemma_assoc_get_append(e0, e1, "attributes"@);
    lemma_assoc_get_append(e0, e1, "preferences"@);
    lemma_assoc_get_append(e0 + e1, e2, "attributes"@);
    lemma_assoc_get_append(e0 + e1, e2, "preferences"@);
}

/// Extra-field isolation for attributes: setting an extra key that is no
/// known field name leaves the known fields unchanged (in the record and
/// in its serialized form), and the new entry is retrievable on its own
/// and independently present in the serialized form.
pub proof fn lemma_attrs_extra_isolated(a: AttributesView, key: Seq<char>, value: FieldView)
    requires
        !attr_field_names().contains(key),
    ensures
        ({
            let b = AttributesView { extra: assoc_set(a.extra, key, value), ..a };
            &&& b.first_name == a.first_name
            &&& b.last_name == a.last_name
            &&& assoc_get(b.extra, key) == Some(value)
            &&& assoc_get(attrs_obj(b), key) == Some(value)
            &&& assoc_get(attrs_obj(b), "first_name"@) == assoc_get(attrs_obj(a), "first_name"@)
            &&& assoc_get(attrs_obj(b), "last_name"@) == assoc_get(attrs_obj(a), "last_name"@)
        }),
{
    lemma_distinct_field_names();
    let b = AttributesView { extra: assoc_set(a.extra, key, value), ..a };
    let e1 = opt_text_entry("first_name"@, a.first_name);
    let e2 = opt_text_entry("last_name"@, a.last_name);
    let known = e1 + e2;
    assert(attrs_obj(a) == known + a.extra);
    assert(attrs_obj(b) == known + b.extra);
    lemma_assoc_set_get(a.extra, key, value);
    lemma_assoc_set_get_other(a.extra, key, value, "first_name"@);
    lemma_assoc_set_get_other(a.extra, key, value, "last_name"@);
    match a.first_name {
        Some(s) => {
            lemma_assoc_get_singleton(("first_name"@, FieldView::Text(s)), key);
            lemma_assoc_get_singleton(("first_name"@, FieldView::Text(s)), "first_name"@);
            lemma_assoc_get_singleton(("first_name"@, FieldView::Text(s)), "last_name"@);
        }
        None => {
            assert(assoc_get(Seq::<(Seq<char>, FieldView)>::empty(), key) is None);
            assert(assoc_get(Seq::<(Seq<char>, FieldView)>::empty(), "first_name"@) is None);
            assert(assoc_get(Seq::<(Seq<char>, FieldView)>::empty(), "last_name"@) is None);
        }
    }
    match a.last_name {
        Some(s) => {
            lemma_assoc_get_singleton(("last_name"@, FieldView::Text(s)), key);
            lemma_assoc_get_singleton(("last_name"@, FieldView::Text(s)), "first_name"@);
            lemma_assoc_get_singleton(("last_name"@, FieldView::Text(s)), "last_name"@);
        }
        None => {
            assert(assoc_get(Seq::<(Seq<char>, FieldView)>::empty(), key) is None);
        }
    }
    assert(key != "first_name"@ && key != "last_name"@) by {
        assert(attr_field_names().contains("first_name"@));
        assert(attr_field_names().contains("last_name"@));
    }
    lemma_assoc_get_append(e1, e2, key);
    lemma_assoc_get_append(e1, e2, "first_name"@);
    lemma_assoc_get_append(e1, e2, "last_name"@);
    lemma_assoc_get_append(known, a.extra, key);
    lemma_assoc_get_append(known, a.extra, "first_name"@);
    lemma_assoc_get_append(known, a.extra, "last_name"@);
    lemma_assoc_get_append(known, b.extra, key);
    lemma_assoc_get_append(known, b.extra, "first_name"@);
    lemma_assoc_get_append(known, b.extra, "last_name"@);
}

/// Extra-field isolation for preferences, in the same sense.
pub proof fn lemma_prefs_extra_isolated(p: PreferencesView, key: Seq<char>, value: FieldView)
    requires
        !pref_field_names().contains(key),
    ensures
        ({
            let b = PreferencesView { extra: assoc_set(p.extra, key, value), ..p };
            &&& b.newsletter_opt_in == p.newsletter_opt_in
            &&& b.language == p.language
            &&& b.currency == p.currency
            &&& assoc_get(b.extra, key) == Some(value)
            &&& assoc_get(prefs_obj(b), key) == Some(value)
            &&& assoc_get(prefs_obj(b), "newsletter_opt_in"@) == assoc_get(
                prefs_obj(p),
                "newsletter_opt_in"@,
            )
            &&& assoc_get(prefs_obj(b), "language"@) == assoc_get(prefs_obj(p), "language"@)
            &&& assoc_get(prefs_obj(b), "currency"@) == assoc_get(prefs_obj(p), "currency"@)
        }),
{
    lemma_distinct_field_names();
    let b = PreferencesView { extra: assoc_set(p.extra, key, value), ..p };
    let e0 = seq![("newsletter_opt_in"@, FieldView::Flag(p.newsletter_opt_in))];
    let e1 = opt_text_entry("language"@, p.language);
    let e2 = opt_text_entry("currency"@, p.currency);
    let known = e0 + e1 + e2;
    assert(prefs_obj(p) == known + p.extra);
    assert(prefs_obj(b) == known + b.extra);
    lemma_assoc_set_get(p.extra, key, value);
    lemma_assoc_set_get_other(p.extra, key, value, "newsletter_opt_in"@);
    lemma_assoc_set_get_other(p.extra, key, value, "language"@);
    lemma_assoc_set_get_other(p.extra, key, value, "currency"@);
    assert(e0 =~= seq![e0[0]]);
    lemma_assoc_get_singleton(e0[0], key);
    lemma_assoc_get_singleton(e0[0], "newsletter_opt_in"@);
    lemma_assoc_get_singleton(e0[0], "language"@);
    lemma_assoc_get_singleton(e0[0], "currency"@);
    match p.language {
        Some(s) => {
            lemma_assoc_get_singleton(("language"@, FieldView::Text(s)), key);
            lemma_assoc_get_singleton(("language"@, FieldView::Text(s)), "newsletter_opt_in"@);
            lemma_assoc_get_singleton(("language"@, FieldView::Text(s)), "language"@);
            lemma_assoc_get_singleton(("language"@, FieldView::Text(s)), "currency"@);
        }
        None => {
            assert(assoc_get(Seq::<(Seq<char>, FieldView)>::empty(), key) is None);
            assert(assoc_get(Seq::<(Seq<char>, FieldView)>::empty(), "newsletter_opt_in"@)
                is None);
            assert(assoc_get(Seq::<(Seq<char>, FieldView)>::empty(), "language"@) is None);
            assert(assoc_get(Seq::<(Seq<char>, FieldView)>::empty(), "currency"@) is None);
        }
    }
    match p.currency {
        Some(s) => {
            lemma_assoc_get_singleton(("currency"@, FieldView::Text(s)), key);
            lemma_assoc_get_singleton(("currency"@, FieldView::Text(s)), "newsletter_opt_in"@);
            lemma_assoc_get_singleton(("currency"@, FieldView::Text(s)), "language"@);
            lemma_assoc_get_singleton(("currency"@, FieldView::Text(s)), "currency"@);
        }
        None => {
            assert(assoc_get(Seq::<(Seq<char>, FieldView)>::empty(), key) is None);
        }
    }
    lemma_assoc_get_append(e0, e1, key);
    lemma_assoc_get_append(e0, e1, "newsletter_opt_in"@);
    lemma_assoc_get_append(e0, e1, "language"@);
    lemma_assoc_get_append(e0, e1, "currency"@);
    lemma_assoc_get_append(e0 + e1, e2, key);
    lemma_assoc_get_append(e0 + e1, e2, "newsletter_opt_in"@);
    lemma_assoc_get_append(e0 + e1, e2, "language"@);
    lemma_assoc_get_append(e0 + e1, e2, "currency"@);
    lemma_assoc_get_append(known, p.extra, key);
    lemma_assoc_get_append(known, p.extra, "newsletter_opt_in"@);
    lemma_assoc_get_append(known, p.extra, "language"@);
    lemma_assoc_get_append(known, p.extra, "currency"@);
    lemma_assoc_get_append(known, b.extra, key);
    lemma_assoc_get_append(known, b.extra, "newsletter_opt_in"@);
    lemma_assoc_get_append(known, b.extra, "language"@);
    lemma_assoc_get_append(known, b.extra, "currency"@);
}

/// Serialization duplicates no key: when the open map's keys are unique
/// and avoid the known field names, the keys of the serialized
/// attributes object are unique too.
pub proof fn lemma_attrs_obj_unique(a: AttributesView)
    requires
        attrs_extra_ok(a),
        assoc_unique(a.extra),
    ensures
        assoc_unique(attrs_obj(a)),
{
    lemma_distinct_field_names();
    let e1 = opt_text_entry("first_name"@, a.first_name);
    let e2 = opt_text_entry("last_name"@, a.last_name);
    let known = e1 + e2;
    let o = attrs_obj(a);
    assert(o == known + a.extra);
    assert(attr_field_names().contains("first_name"@));
    assert(attr_field_names().contains("last_name"@));
    assert(forall|i: int|
        0 <= i < known.len() ==> attr_field_names().contains((#[trigger] known[i]).0)) by {
        match a.first_name {
            Some(f) => {
                assert(known[0] == ("first_name"@, FieldView::Text(f)));
            }
            None => {
            }
        }
        match a.last_name {
            Some(l) => {
                assert(known[known.len() - 1] == ("last_name"@, FieldView::Text(l)));
            }
            None => {
            }
        }
    }
    assert(forall|i: int, j: int| 0 <= i < j < known.len() ==> known[i].0 != known[j].0) by {
        if known.len() == 2 {
            assert(known[0].0 == "first_name"@);
            assert(known[1].0 == "last_name"@);
        }
    }
    assert(forall|i: int, j: int| 0 <= i < j < o.len() ==> o[i].0 != o[j].0) by {
        assert(forall|i: int|
            known.len() <= i < o.len() ==> (#[trigger] o[i]) == a.extra[i - known.len()]);
        assert(forall|i: int| 0 <= i < known.len() ==> (#[trigger] o[i]) == known[i]);
    }
}

/// The same for preferences.
pub proof fn lemma_prefs_obj_unique(p: PreferencesView)
    requires
        prefs_extra_ok(p),
        assoc_unique(p.extra),
    ensures
        assoc_unique(prefs_obj(p)),
{
    lemma_distinct_field_names();
    let e0 = seq![("newsletter_opt_in"@, FieldView::Flag(p.newsletter_opt_in))];
    let e1 = opt_text_entry("language"@, p.language);
    let e2 = opt_text_entry("currency"@, p.currency);
    let known = e0 + e1 + e2;
    let o = prefs_obj(p);
    assert(o == known + p.extra);
    assert(pref_field_names().contains("newsletter_opt_in"@));
    assert(pref_field_names().contains("language"@));
    assert(pref_field_names().contains("currency"@));
    assert(known[0] == ("newsletter_opt_in"@, FieldView::Flag(p.newsletter_opt_in)));
    assert(forall|i: int|
        0 <= i < known.len() ==> pref_field_names().contains((#[trigger] known[i]).0)) by {
        match p.language {
            Some(l) => {
                assert(known[1] == ("language"@, FieldView::Text(l)));
            }
            None => {
            }
        }
        match p.currency {
            Some(c) => {
                assert(known[known.len() - 1] == ("currency"@, FieldView::Text(c)));
            }
            None => {
            }
        }
    }
    assert(forall|i: int, j: int| 0 <= i < j < known.len() ==> known[i].0 != known[j].0) by {
        match p.language {
            Some(l) => {
                assert(known[1] == ("language"@, FieldView::Text(l)));
            }
            None => {
            }
        }
        match p.currency {
            Some(c) => {
                assert(known[known.len() - 1] == ("currency"@, FieldView::Text(c)));
            }
            None => {
            }
        }
    }
    assert(forall|i: int, j: int| 0 <= i < j < o.len() ==> o[i].0 != o[j].0) by {
        assert(forall|i: int|
            known.len() <= i < o.len() ==> (#[trigger] o[i]) == p.extra[i - known.len()]);
        assert(forall|i: int| 0 <= i < known.len() ==> (#[trigger] o[i]) == known[i]);
    }
}

/// The same for a whole profile document: its keys are always unique.
pub proof fn lemma_profile_obj_unique(p: ProfileView)
    ensures
        assoc_unique(profile_obj(p)),
{
    lemma_distinct_field_names();
    let e0 = seq![("id"@, DocView::Text(p.id)), ("email"@, DocView::Text(p.email))];
    let e1 = opt_obj_entry(
        "attributes"@,
        match p.attributes {
            Some(a) => Some(attrs_obj(a)),
            None => None,
        },
    );
    let e2 = opt_obj_entry(
        "preferences"@,
        match p.preferences {
            Some(q) => Some(prefs_obj(q)),
            None => None,
        },
    );
    let o = profile_obj(p);
    assert(o == e0 + e1 + e2);
    assert(forall|i: int, j: int| 0 <= i < j < o.len() ==> o[i].0 != o[j].0) by {
        assert(o[0].0 == "id"@);
        assert(o[1].0 == "email"@);
        match p.attributes {
            Some(a) => {
                assert(o[2].0 == "attributes"@);
            }
            None => {
            }
        }
        match p.preferences {
            Some(q) => {
                assert(o[o.len() - 1].0 == "preferences"@);
            }
            None => {
            }
        }
    }
}

} // verus!
