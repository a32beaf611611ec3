use vstd::prelude::*;
use vstd::string::StringExecFns;
use crate::validate::{self, regex_matches, Error};

verus! {

/// The pattern an email address must contain.
pub open spec fn email_pattern() -> Seq<char> {
    "\\w+([-+.']\\w+)*@\\w+([-.]\\w+)*\\.\\w+([-.]\\w+)*"@
}

/// Represents an email address: non-empty, at most 255 characters, and
/// shaped like an address.
#[derive(Debug, PartialEq, Eq)]
pub struct EmailAddress(String);

impl View for EmailAddress {
    type V = Seq<char>;

    closed spec fn view(&self) -> Seq<char> {
        self.0@
    }
}

impl Clone for EmailAddress {
    /// Cloning keeps the address text.
    fn clone(&self) -> (r: Self)
        ensures
            r == *self,
    {
        EmailAddress(self.0.clone())
    }
}

impl EmailAddress {
    pub open spec fn wf(self) -> bool {
        0 < self@.len() <= 255 && regex_matches(email_pattern(), self@)
    }

    /// Creates a new `EmailAddress`, refusing an empty, overlong or
    /// malformed one.
    pub fn new(email_address: &str) -> (r: Result<Self, Error>)
        ensures
            match r {
                Ok(v) => v@ == email_address@ && v.wf(),
                Err(e) => match e {
                    Error::Required(n) => email_address@.len() == 0 && n@ == "email_address"@,
                    Error::TooLong(n, m) => email_address@.len() > 255 && n@ == "email_address"@
                        && m == 255,
                    Error::InvalidFormat(n) => 0 < email_address@.len() <= 255 && !regex_matches(
                        email_pattern(),
                        email_address@,
                    ) && n@ == "email_address"@,
                    _ => false,
                },
            },
    {
        validate::not_empty("email_address", email_address)?;
        validate::max_length("email_address", email_address, 255)?;
        validate::matches(
            "email_address",
            email_address,
            "\\w+([-+.']\\w+)*@\\w+([-.]\\w+)*\\.\\w+([-.]\\w+)*",
        )?;
        Ok(EmailAddress(email_address.to_owned()))
    }

    /// The text of the address.
    pub fn as_str(&self) -> (r: &str)
        ensures
            r@ == self@,
    {
        self.0.as_str()
    }
}

/// The pattern a telephone number must contain.
pub open spec fn telephone_pattern() -> Seq<char> {
    "((\\(\\d{3}\\))|(\\d{3}-))\\d{3}-\\d{4}"@
}

/// A telephone number: 5 to 20 characters shaped like a phone number.
#[derive(Debug, PartialEq, Eq)]
pub struct Telephone(String);

impl View for Telephone {
    type V = Seq<char>;

    closed spec fn view(&self) -> Seq<char> {
        self.0@
    }
}

impl Clone for Telephone {
    /// Cloning keeps the number text.
    fn clone(&self) -> (r: Self)
        ensures
            r == *self,
    {
        Telephone(self.0.clone())
    }
}

impl Telephone {
    pub open spec fn wf(self) -> bool {
        5 <= self@.len() <= 20 && regex_matches(telephone_pattern(), self@)
    }

    /// Creates a new `Telephone`, refusing an empty, ill-sized or malformed
    /// one.
    pub fn new(telephone: &str) -> (r: Result<Self, Error>)
        ensures
            match r {
                Ok(v) => v@ == telephone@ && v.wf(),
                Err(e) => match e {
                    Error::Required(n) => telephone@.len() == 0 && n@ == "telephone"@,
                    Error::TooShort(n, m) => 0 < telephone@.len() < 5 && n@ == "telephone"@ && m
                        == 5,
                    Error::TooLong(n, m) => telephone@.len() > 20 && n@ == "telephone"@ && m == 20,
                    Error::InvalidFormat(n) => 5 <= telephone@.len() <= 20 && !regex_matches(
                        telephone_pattern(),
                        telephone@,
                    ) && n@ == "telephone"@,
                    _ => false,
                },
            },
    {
        validate::not_empty("telephone", telephone)?;
        validate::length_between("telephone", telephone, 5, 20)?;
        validate::matches("telephone", telephone, "((\\(\\d{3}\\))|(\\d{3}-))\\d{3}-\\d{4}")?;
        Ok(Telephone(telephone.to_owned()))
    }

    /// The text of the number.
    pub fn as_str(&self) -> (r: &str)
        ensures
            r@ == self@,
    {
        self.0.as_str()
    }
}

/// The pattern a country code must match: two capital letters.
pub open spec fn country_code_pattern() -> Seq<char> {
    "^[A-Z]{2}$"@
}

/// The mathematical content of a postal address.
pub ghost struct PostalAddressV {
    pub street_name: Seq<char>,
    pub building_number: Option<Seq<char>>,
    pub postal_code: Seq<char>,
    pub city: Seq<char>,
    pub state_province: Seq<char>,
    pub country_code: Seq<char>,
}

impl PostalAddressV {
    pub open spec fn wf(self) -> bool {
        &&& 0 < self.street_name.len() <= 150
        &&& match self.building_number {
            Some(b) => 0 < b.len() <= 18,
            None => true,
        }
        &&& 0 < self.postal_code.len() <= 10
        &&& 0 < self.city.len() <= 35
        &&& 0 < self.state_province.len() <= 18
        &&& self.country_code.len() == 2 && regex_matches(
            country_code_pattern(),
            self.country_code,
        )
    }
}

/// Value object representing a postal address.
#[derive(Debug, PartialEq, Eq)]
pub struct PostalAddress {
    street_name: String,
    building_number: Option<String>,
    postal_code: String,
    city: String,
    state_province: String,
    country_code: String,
}

impl View for PostalAddress {
    type V = PostalAddressV;

    closed spec fn view(&self) -> PostalAddressV {
        PostalAddressV {
            street_name: self.street_name@,
            building_number: match self.building_number {
                Some(b) => Some(b@),
                None => None,
            },
            postal_code: self.postal_code@,
            city: self.city@,
            state_province: self.state_province@,
            country_code: self.country_code@,
        }
    }
}

impl Clone for PostalAddress {
    /// Cloning keeps every field.
    fn clone(&self) -> (r: Self)
        ensures
            r == *self,
    {
        PostalAddress {
            street_name: self.street_name.clone(),
            building_number: match &self.building_number {
                Some(b) => Some(b.clone()),
                None => None,
            },
            postal_code: self.postal_code.clone(),
            city: self.city.clone(),
            state_province: self.state_province.clone(),
            country_code: self.country_code.clone(),
        }
    }
}

impl PostalAddress {
    /// Creates a new `PostalAddress`, validating every field; it fails when
    /// any field violates its constraint, leaving nothing behind.
    pub fn new(
        street_name: &str,
        building_number: Option<&str>,
        postal_code: &str,
        city: &str,
        state_province: &str,
        country_code: &str,
    ) -> (r: Result<Self, Error>)
        ensures
            match r {
                Ok(v) => v@ == (PostalAddressV {
                    street_name: street_name@,
                    building_number: match building_number {
                        Some(b) => Some(b@),
                        None => None::<Seq<char>>,
                    },
                    postal_code: postal_code@,
                    city: city@,
                    state_province: state_province@,
                    country_code: country_code@,
                }) && v@.wf(),
                Err(_) => !(PostalAddressV {
                    street_name: street_name@,
                    building_number: match building_number {
                        Some(b) => Some(b@),
                        None => None::<Seq<char>>,
                    },
                    postal_code: postal_code@,
                    city: city@,
                    state_province: state_province@,
                    country_code: country_code@,
                }).wf(),
            },
    {
        let mut address = PostalAddress {
            street_name: String::new(),
            building_number: None,
            postal_code: String::new(),
            city: String::new(),
            state_province: String::new(),
            country_code: String::new(),
        };
        address.set_street_name(street_name)?;
        address.set_building_number(building_number)?;
        address.set_postal_code(postal_code)?;
        address.set_city(city)?;
        address.set_state_province(state_province)?;
        address.set_country_code(country_code)?;
        Ok(address)
    }

    /// The street name of the address.
    pub fn street_name(&self) -> (r: &str)
        ensures
            r@ == self@.street_name,
    {
        self.street_name.as_str()
    }

    /// Replace the street name: non-empty, at most 150 characters.
    pub fn set_street_name(&mut self, street_name: &str) -> (r: Result<(), Error>)
        ensures
            match r {
                Ok(()) => 0 < street_name@.len() <= 150 && final(self)@ == (PostalAddressV {
                    street_name: street_name@,
                    ..old(self)@
                }),
                Err(_) => !(0 < street_name@.len() <= 150) && *final(self) == *old(self),
            },
    {
        validate::not_empty("street_name", street_name)?;
        validate::max_length("street_name", street_name, 150)?;
        self.street_name = street_name.to_owned();
        Ok(())
    }

    /// The building number of the address, if any.
    pub fn building_number(&self) -> (r: Option<&str>)
        ensures
            match r {
                Some(b) => self@.building_number == Some(b@),
                None => self@.building_number is None,
            },
    {
        match &self.building_number {
            Some(b) => Some(b.as_str()),
            None => None,
        }
    }

    /// Replace the building number: when present, non-empty and at most 18
    /// characters.
    pub fn set_building_number(&mut self, building_number: Option<&str>) -> (r: Result<(), Error>)
        ensures
            match r {
                Ok(()) => match building_number {
                    Some(b) => 0 < b@.len() <= 18 && final(self)@ == (PostalAddressV {
                        building_number: Some(b@),
                        ..old(self)@
                    }),
                    None => final(self)@ == (PostalAddressV {
                        building_number: None,
                        ..old(self)@
                    }),
                },
                Err(_) => building_number matches Some(b) && !(0 < b@.len() <= 18) && *final(self)
                    == *old(self),
            },
    {
        match building_number {
            Some(building_number) => {
                validate::not_empty("building_number", building_number)?;
                validate::max_length("building_number", building_number, 18)?;
                self.building_number = Some(building_number.to_owned());
            },
            None => {
                self.building_number = None;
            },
        }
        Ok(())
    }

    /// The postal code of the address.
    pub fn postal_code(&self) -> (r: &str)
        ensures
            r@ == self@.postal_code,
    {
        self.postal_code.as_str()
    }

    /// Replace the postal code: non-empty, at most 10 characters.
    pub fn set_postal_code(&mut self, postal_code: &str) -> (r: Result<(), Error>)
        ensures
            match r {
                Ok(()) => 0 < postal_code@.len() <= 10 && final(self)@ == (PostalAddressV {
                    postal_code: postal_code@,
                    ..old(self)@
                }),
                Err(_) => !(0 < postal_code@.len() <= 10) && *final(self) == *old(self),
            },
    {
        validate::not_empty("postal_code", postal_code)?;
        validate::max_length("postal_code", postal_code, 10)?;
        self.postal_code = postal_code.to_owned();
        Ok(())
    }

    /// The city of the address.
    pub fn city(&self) -> (r: &str)
        ensures
            r@ == self@.city,
    {
        self.city.as_str()
    }

    /// Replace the city: non-empty, at most 35 characters.
    pub fn set_city(&mut self, city: &str) -> (r: Result<(), Error>)
        ensures
            match r {
                Ok(()) => 0 < city@.len() <= 35 && final(self)@ == (PostalAddressV {
                    city: city@,
                    ..old(self)@
                }),
                Err(_) => !(0 < city@.len() <= 35) && *final(self) == *old(self),
            },
    {
        validate::not_empty("city", city)?;
        validate::max_length("city", city, 35)?;
        self.city = city.to_owned();
        Ok(())
    }

    /// The state or province of the address.
    pub fn state_province(&self) -> (r: &str)
        ensures
            r@ == self@.state_province,
    {
        self.state_province.as_str()
    }

    /// Replace the state or province: non-empty, at most 18 characters.
    pub fn set_state_province(&mut self, state_province: &str) -> (r: Result<(), Error>)
        ensures
            match r {
                Ok(()) => 0 < state_province@.len() <= 18 && final(self)@ == (PostalAddressV {
                    state_province: state_province@,
                    ..old(self)@
                }),
                Err(_) => !(0 < state_province@.len() <= 18) && *final(self) == *old(self),
            },
    {
        validate::not_empty("state_province", state_province)?;
        validate::max_length("state_province", state_province, 18)?;
        self.state_province = state_province.to_owned();
        Ok(())
    }

    /// The two-letter country code of the address.
    pub fn country_code(&self) -> (r: &str)
        ensures
            r@ == self@.country_code,
    {
        self.country_code.as_str()
    }

    /// Replace the country code: exactly two capital letters.
    pub fn set_country_code(&mut self, country_code: &str) -> (r: Result<(), Error>)
        ensures
            match r {
                Ok(()) => country_code@.len() == 2 && regex_matches(
                    country_code_pattern(),
                    country_code@,
                ) && final(self)@ == (PostalAddressV { country_code: country_code@, ..old(self)@ }),
                Err(_) => !(country_code@.len() == 2 && regex_matches(
                    country_code_pattern(),
                    country_code@,
                )) && *final(self) == *old(self),
            },
    {
        validate::not_empty("country_code", country_code)?;
        validate::length_between("country_code", country_code, 2, 2)?;
        validate::matches("country_code", country_code, "^[A-Z]{2}$")?;
        self.country_code = country_code.to_owned();
        Ok(())
    }
}

/// The pattern a first name must match.
pub open spec fn first_name_pattern() -> Seq<char> {
    "^[A-Z][a-z]*$"@
}

/// The pattern a last name must contain.
pub open spec fn last_name_pattern() -> Seq<char> {
    "^[a-zA-Z'][ a-zA-Z'-]*[a-zA-Z']?"@
}

/// The mathematical content of a full name.
pub ghost struct FullNameV {
    pub first_name: Seq<char>,
    pub last_name: Seq<char>,
}

impl FullNameV {
    pub open spec fn wf(self) -> bool {
        &&& 0 < self.first_name.len() <= 50 && regex_matches(
            first_name_pattern(),
            self.first_name,
        )
        &&& 0 < self.last_name.len() <= 50 && regex_matches(last_name_pattern(), self.last_name)
    }
}

/// The first and last name of a person.
#[derive(Debug, PartialEq, Eq)]
pub struct FullName {
    first_name: String,
    last_name: String,
}

impl View for FullName {
    type V = FullNameV;

    closed spec fn view(&self) -> FullNameV {
        FullNameV { first_name: self.first_name@, last_name: self.last_name@ }
    }
}

impl Clone for FullName {
    /// Cloning keeps both names.
    fn clone(&self) -> (r: Self)
        ensures
            r == *self,
    {
        FullName { first_name: self.first_name.clone(), last_name: self.last_name.clone() }
    }
}

impl FullName {
    /// Creates a new `FullName`, validating both parts; it fails when either
    /// violates its constraint.
    pub fn new(first_name: &str, last_name: &str) -> (r: Result<Self, Error>)
        ensures
            match r {
                Ok(v) => v@ == (FullNameV { first_name: first_name@, last_name: last_name@ })
                    && v@.wf(),
                Err(_) => !(FullNameV { first_name: first_name@, last_name: last_name@ }).wf(),
            },
    {
        let mut full_name = FullName { first_name: String::new(), last_name: String::new() };
        full_name.set_first_name(first_name)?;
        full_name.set_last_name(last_name)?;
        Ok(full_name)
    }

    /// The full name as one string: first name, a space, last name.
    pub fn as_formatted_name(&self) -> (r: String)
        ensures
            r@ == self@.first_name + " "@ + self@.last_name,
    {
        self.first_name.clone().concat(" ").concat(self.last_name.as_str())
    }

    /// The first name.
    pub fn first_name(&self) -> (r: &str)
        ensures
            r@ == self@.first_name,
    {
        self.first_name.as_str()
    }

    /// Replace the first name: a capital letter followed by small letters,
    /// at most 50 characters.
    pub fn set_first_name(&mut self, first_name: &str) -> (r: Result<(), Error>)
        ensures
            match r {
                Ok(()) => 0 < first_name@.len() <= 50 && regex_matches(
                    first_name_pattern(),
                    first_name@,
                ) && final(self)@ == (FullNameV { first_name: first_name@, ..old(self)@ }),
                Err(_) => !(0 < first_name@.len() <= 50 && regex_matches(
                    first_name_pattern(),
                    first_name@,
                )) && *final(self) == *old(self),
            },
    {
        validate::not_empty("first_name", first_name)?;
        validate::max_length("first_name", first_name, 50)?;
        validate::matches("first_name", first_name, "^[A-Z][a-z]*$")?;
        self.first_name = first_name.to_owned();
        Ok(())
    }

    /// The last name.
    pub fn last_name(&self) -> (r: &str)
        ensures
            r@ == self@.last_name,
    {
        self.last_name.as_str()
    }

    /// Replace the last name: letters, spaces, apostrophes and hyphens, at
    /// most 50 characters.
    pub fn set_last_name(&mut self, last_name: &str) -> (r: Result<(), Error>)
        ensures
            match r {
                Ok(()) => 0 < last_name@.len() <= 50 && regex_matches(
                    last_name_pattern(),
                    last_name@,
                ) && final(self)@ == (FullNameV { last_name: last_name@, ..old(self)@ }),
                Err(_) => !(0 < last_name@.len() <= 50 && regex_matches(
                    last_name_pattern(),
                    last_name@,
                )) && *final(self) == *old(self),
            },
    {
        validate::not_empty("last_name", last_name)?;
        validate::max_length("last_name", last_name, 50)?;
        validate::matches("last_name", last_name, "^[a-zA-Z'][ a-zA-Z'-]*[a-zA-Z']?")?;
        self.last_name = last_name.to_owned();
        Ok(())
    }
}

/// The mathematical content of a person's contact information.
pub ghost struct ContactInformationV {
    pub email_address: Seq<char>,
    pub postal_address: Option<PostalAddressV>,
    pub primary_telephone: Option<Seq<char>>,
    pub secondary_telephone: Option<Seq<char>>,
}

/// How a person can be reached: an email address and optional postal
/// address and telephones.
#[derive(Debug, PartialEq, Eq)]
pub struct ContactInformation {
    email_address: EmailAddress,
    postal_address: Option<PostalAddress>,
    primary_telephone: Option<Telephone>,
    secondary_telephone: Option<Telephone>,
}

impl View for ContactInformation {
    type V = ContactInformationV;

    closed spec fn view(&self) -> ContactInformationV {
        ContactInformationV {
            email_address: self.email_address@,
            postal_address: match self.postal_address {
                Some(p) => Some(p@),
                None => None,
            },
            primary_telephone: match self.primary_telephone {
                Some(t) => Some(t@),
                None => None,
            },
            secondary_telephone: match self.secondary_telephone {
                Some(t) => Some(t@),
                None => None,
            },
        }
    }
}

impl Clone for ContactInformation {
    /// Cloning keeps every part.
    fn clone(&self) -> (r: Self)
        ensures
            r@ == self@,
    {
        ContactInformation {
            email_address: self.email_address.clone(),
            postal_address: match &self.postal_address {
                Some(p) => Some(p.clone()),
                None => None,
            },
            primary_telephone: match &self.primary_telephone {
                Some(t) => Some(t.clone()),
                None => None,
            },
            secondary_telephone: match &self.secondary_telephone {
                Some(t) => Some(t.clone()),
                None => None,
            },
        }
    }
}

impl ContactInformation {
    /// Collects the parts of a person's contact information.
    pub fn new(
        email_address: EmailAddress,
        postal_address: Option<PostalAddress>,
        primary_telephone: Option<Telephone>,
        secondary_telephone: Option<Telephone>,
    ) -> (r: Self)
        ensures
            r@.email_address == email_address@,
            r@.postal_address == match postal_address {
                Some(p) => Some(p@),
                None => None::<PostalAddressV>,
            },
            r@.primary_telephone == match primary_telephone {
                Some(t) => Some(t@),
                None => None::<Seq<char>>,
            },
            r@.secondary_telephone == match secondary_telephone {
                Some(t) => Some(t@),
                None => None::<Seq<char>>,
            },
    {
        ContactInformation { email_address, postal_address, primary_telephone, secondary_telephone }
    }

    /// The email address.
    pub fn email_address(&self) -> (r: &EmailAddress)
        ensures
            r@ == self@.email_address,
    {
        &self.email_address
    }

    /// The postal address, if any.
    pub fn postal_address(&self) -> (r: &Option<PostalAddress>)
        ensures
            match *r {
                Some(p) => self@.postal_address == Some(p@),
                None => self@.postal_address is None,
            },
    {
        &self.postal_address
    }

    /// The primary telephone, if any.
    pub fn primary_telephone(&self) -> (r: &Option<Telephone>)
        ensures
            match *r {
                Some(t) => self@.primary_telephone == Some(t@),
                None => self@.primary_telephone is None,
            },
    {
        &self.primary_telephone
    }

    /// The secondary telephone, if any.
    pub fn secondary_telephone(&self) -> (r: &Option<Telephone>)
        ensures
            match *r {
                Some(t) => self@.secondary_telephone == Some(t@),
                None => self@.secondary_telephone is None,
            },
    {
        &self.secondary_telephone
    }

    /// The same contact information with another email address.
    pub fn with_email_address(&self, email_address: EmailAddress) -> (r: Self)
        ensures
            r@ == (ContactInformationV { email_address: email_address@, ..self@ }),
    {
        ContactInformation {
            email_address,
            postal_address: match &self.postal_address {
                Some(p) => Some(p.clone()),
                None => None,
            },
            primary_telephone: match &self.primary_telephone {
                Some(t) => Some(t.clone()),
                None => None,
            },
            secondary_telephone: match &self.secondary_telephone {
                Some(t) => Some(t.clone()),
                None => None,
            },
        }
    }

    /// The same contact information with another postal address.
    pub fn with_postal_address(&self, postal_address: Option<PostalAddress>) -> (r: Self)
        ensures
            r@ == (ContactInformationV {
                postal_address: match postal_address {
                    Some(p) => Some(p@),
                    None => None::<PostalAddressV>,
                },
                ..self@
            }),
    {
        ContactInformation {
            email_address: self.email_address.clone(),
            postal_address,
            primary_telephone: match &self.primary_telephone {
                Some(t) => Some(t.clone()),
                None => None,
            },
            secondary_telephone: match &self.secondary_telephone {
                Some(t) => Some(t.clone()),
                None => None,
            },
        }
    }

    /// The same contact information with another primary telephone.
    pub fn with_primary_telephone(&self, primary_telephone: Option<Telephone>) -> (r: Self)
        ensures
            r@ == (ContactInformationV {
                primary_telephone: match primary_telephone {
                    Some(t) => Some(t@),
                    None => None::<Seq<char>>,
                },
                ..self@
            }),
    {
        ContactInformation {
            email_address: self.email_address.clone(),
            postal_address: match &self.postal_address {
                Some(p) => Some(p.clone()),
                None => None,
            },
            primary_telephone,
            secondary_telephone: match &self.secondary_telephone {
                Some(t) => Some(t.clone()),
                None => None,
            },
        }
    }

    /// The same contact information with another secondary telephone.
    pub fn with_secondary_telephone(&self, secondary_telephone: Option<Telephone>) -> (r: Self)
        ensures
            r@ == (ContactInformationV {
                secondary_telephone: match secondary_telephone {
                    Some(t) => Some(t@),
                    None => None::<Seq<char>>,
                },
                ..self@
            }),
    {
        ContactInformation {
            email_address: self.email_address.clone(),
            postal_address: match &self.postal_address {
                Some(p) => Some(p.clone()),
                None => None,
            },
            primary_telephone: match &self.primary_telephone {
                Some(t) => Some(t.clone()),
                None => None,
            },
            secondary_telephone,
        }
    }
}

/// The mathematical content of a person.
pub ghost struct PersonV {
    pub name: FullNameV,
    pub contact_information: ContactInformationV,
}

/// A person: a full name and contact information.
#[derive(Debug, PartialEq, Eq)]
pub struct Person {
    name: FullName,
    contact_information: ContactInformation,
}

impl View for Person {
    type V = PersonV;

    closed spec fn view(&self) -> PersonV {
        PersonV { name: self.name@, contact_information: self.contact_information@ }
    }
}

impl Clone for Person {
    /// Cloning keeps the name and the contact information.
    fn clone(&self) -> (r: Self)
        ensures
            r@ == self@,
    {
        Person { name: self.name.clone(), contact_information: self.contact_information.clone() }
    }
}

impl Person {
    /// Creates a new `Person` with the given name and contact information.
    pub fn new(name: FullName, contact_information: ContactInformation) -> (r: Self)
        ensures
            r@.name == name@,
            r@.contact_information == contact_information@,
    {
        Person { name, contact_information }
    }

    /// The person's full name.
    pub fn name(&self) -> (r: &FullName)
        ensures
            r@ == self@.name,
    {
        &self.name
    }

    /// The person's email address.
    pub fn email_address(&self) -> (r: &EmailAddress)
        ensures
            r@ == self@.contact_information.email_address,
    {
        self.contact_information.email_address()
    }

    /// The person's contact information.
    pub fn contact_information(&self) -> (r: &ContactInformation)
        ensures
            r@ == self@.contact_information,
    {
        &self.contact_information
    }

    /// Changes the person's full name.
    pub fn change_name(&mut self, new_full_name: FullName)
        ensures
            final(self)@ == (PersonV { name: new_full_name@, ..old(self)@ }),
    {
        self.name = new_full_name;
    }

    /// Changes the person's contact information.
    pub fn change_contact_information(&mut self, new_contact_information: ContactInformation)
        ensures
            final(self)@ == (PersonV {
                contact_information: new_contact_information@,
                ..old(self)@
            }),
    {
        self.contact_information = new_contact_information;
    }
}

} // verus!
