//! The fluent builder: collects the inputs of one call and names the first that is missing.

use crate::cipher::decrypt;
use crate::cipher::encrypt;
use crate::cipher::refused_as;
use crate::cipher::spec_decrypt;
use crate::cipher::spec_encrypt;
use crate::config::Config;
use crate::errors::Errors;
use crate::errors::Rejection;
use crate::kdf::salt_view;
use crate::nonce::NonceData;
use crate::salt::Salt;
use crate::shift::SIZE_CEILING;
use vstd::prelude::*;
use vstd::slice::slice_to_vec;

verus! {

/// What a builder holds, as values.
pub struct BuilderView {
    pub config: Option<Config>,
    pub data: Option<Seq<u8>>,
    pub password: Option<Seq<char>>,
    pub nonce: Option<NonceData>,
    pub salt: Option<Salt>,
    pub wrap_all: bool,
    pub benchmark: bool,
}

/// Collects the inputs of one encryption or decryption, field by field.
pub struct AtomCrypteBuilder {
    config: Option<Config>,
    data: Option<Vec<u8>>,
    password: Option<String>,
    nonce: Option<NonceData>,
    salt: Option<Salt>,
    wrap_all: bool,
    benchmark: bool,
}

impl View for AtomCrypteBuilder {
    type V = BuilderView;

    closed spec fn view(&self) -> BuilderView {
        BuilderView {
            config: self.config,
            data: match self.data {
                Some(d) => Some(d@),
                None => None,
            },
            password: match self.password {
                Some(p) => Some(p@),
                None => None,
            },
            nonce: self.nonce,
            salt: self.salt,
            wrap_all: self.wrap_all,
            benchmark: self.benchmark,
        }
    }
}

/// The field that an encryption misses first, by the name it is reported
/// under: the settings, the data, the password, the nonce, in this order.
pub open spec fn missing_for_encrypt(b: BuilderView) -> Option<Seq<char>> {
    if b.config is None {
        Some("Missing Config"@)
    } else if b.data is None {
        Some("Missing Data"@)
    } else if b.password is None {
        Some("Missing Password"@)
    } else if b.nonce is None {
        Some("Missing Nonce"@)
    } else {
        None
    }
}

/// The field that a decryption misses first: the settings, the data, the
/// password, in this order. A decryption can do without a nonce.
pub open spec fn missing_for_decrypt(b: BuilderView) -> Option<Seq<char>> {
    if b.config is None {
        Some("Missing Config"@)
    } else if b.data is None {
        Some("Missing Data"@)
    } else if b.password is None {
        Some("Missing Password"@)
    } else {
        None
    }
}

/// The inputs of an encryption, all present.
pub struct EncryptInputs {
    pub config: Config,
    pub data: Vec<u8>,
    pub password: String,
    pub nonce: NonceData,
    pub salt: Option<Salt>,
    pub wrap_all: bool,
}

/// The inputs of a decryption, all present but the nonce and the salt,
/// which a wrapped blob carries itself.
pub struct DecryptInputs {
    pub config: Config,
    pub data: Vec<u8>,
    pub password: String,
    pub nonce: Option<NonceData>,
    pub salt: Option<Salt>,
    pub wrap_all: bool,
}

impl AtomCrypteBuilder {
    /// A builder that holds nothing yet.
    pub fn new() -> (r: Self)
        ensures
            r@ == (BuilderView {
                config: None,
                data: None,
                password: None,
                nonce: None,
                salt: None,
                wrap_all: false,
                benchmark: false,
            }),
    {
        Self {
            password: None,
            data: None,
            config: None,
            nonce: None,
            salt: None,
            wrap_all: false,
            benchmark: false,
        }
    }

    /// Sets the data to encrypt or the blob to decrypt.
    pub fn data(self, data: &[u8]) -> (r: Self)
        ensures
            r@ == (BuilderView { data: Some(data@), ..self@ }),
    {
        let mut out = self;
        out.data = Some(slice_to_vec(data));
        out
    }

    /// Sets the settings.
    pub fn config(self, config: Config) -> (r: Self)
        ensures
            r@ == (BuilderView { config: Some(config), ..self@ }),
    {
        let mut out = self;
        out.config = Some(config);
        out
    }

    /// Sets the password.
    pub fn password(self, password: &str) -> (r: Self)
        ensures
            r@ == (BuilderView { password: Some(password@), ..self@ }),
    {
        let mut out = self;
        out.password = Some(password.to_owned());
        out
    }

    /// Sets the nonce.
    pub fn nonce(self, nonce: NonceData) -> (r: Self)
        ensures
            r@ == (BuilderView { nonce: Some(nonce), ..self@ }),
    {
        let mut out = self;
        out.nonce = Some(nonce);
        out
    }

    /// Sets the salt.
    pub fn salt(self, salt: Salt) -> (r: Self)
        ensures
            r@ == (BuilderView { salt: Some(salt), ..self@ }),
    {
        let mut out = self;
        out.salt = Some(salt);
        out
    }

    /// Sets whether the blob carries its nonce and salt.
    pub fn wrap_all(self, wrap_all: bool) -> (r: Self)
        ensures
            r@ == (BuilderView { wrap_all, ..self@ }),
    {
        let mut out = self;
        out.wrap_all = wrap_all;
        out
    }

    /// Asks for the call to be timed by whoever runs it.
    pub fn benchmark(self) -> (r: Self)
        ensures
            r@ == (BuilderView { benchmark: true, ..self@ }),
    {
        let mut out = self;
        out.benchmark = true;
        out
    }

    /// Whether timing was asked for.
    pub fn wants_benchmark(&self) -> (r: bool)
        ensures
            r == self@.benchmark,
    {
        self.benchmark
    }

    /// The inputs of an encryption. A builder without settings, data, password
    /// or nonce is refused with `BuildFailed` and the name of the first of them
    /// that is missing.
    pub fn encrypt_inputs(self) -> (r: Result<EncryptInputs, Errors>)
        ensures
            match missing_for_encrypt(self@) {
                Some(name) => r matches Err(Errors::BuildFailed(m)) && m@ == name,
                None => r matches Ok(inputs) && Some(inputs.config) == self@.config && Some(
                    inputs.data@,
                ) == self@.data && Some(inputs.password@) == self@.password && Some(inputs.nonce)
                    == self@.nonce && inputs.salt == self@.salt && inputs.wrap_all
                    == self@.wrap_all,
            },
    {
        let config = match self.config {
            Some(config) => config,
            None => {
                return Err(Errors::BuildFailed("Missing Config".to_owned()));
            },
        };
        let data = match self.data {
            Some(data) => data,
            None => {
                return Err(Errors::BuildFailed("Missing Data".to_owned()));
            },
        };
        let password = match self.password {
            Some(password) => password,
            None => {
                return Err(Errors::BuildFailed("Missing Password".to_owned()));
            },
        };
        let nonce = match self.nonce {
            Some(nonce) => nonce,
            None => {
                return Err(Errors::BuildFailed("Missing Nonce".to_owned()));
            },
        };
        Ok(
            EncryptInputs {
                config,
                data,
                password,
                nonce,
                salt: self.salt,
                wrap_all: self.wrap_all,
            },
        )
    }

    /// The inputs of a decryption. A builder without settings, data or
    /// password is refused with `BuildFailed` and the name of the first of them
    /// that is missing.
    pub fn decrypt_inputs(self) -> (r: Result<DecryptInputs, Errors>)
        ensures
            match missing_for_decrypt(self@) {
                Some(name) => r matches Err(Errors::BuildFailed(m)) && m@ == name,
                None => r matches Ok(inputs) && Some(inputs.config) == self@.config && Some(
                    inputs.data@,
                ) == self@.data && Some(inputs.password@) == self@.password && inputs.nonce
                    == self@.nonce && inputs.salt == self@.salt && inputs.wrap_all
                    == self@.wrap_all,
            },
    {
        let config = match self.config {
            Some(config) => config,
            None => {
                return Err(Errors::BuildFailed("Missing Config".to_owned()));
            },
        };
        let data = match self.data {
            Some(data) => data,
            None => {
                return Err(Errors::BuildFailed("Missing Data".to_owned()));
            },
        };
        let password = match self.password {
            Some(password) => password,
            None => {
                return Err(Errors::BuildFailed("Missing Password".to_owned()));
            },
        };
        Ok(
            DecryptInputs {
                config,
                data,
                password,
                nonce: self.nonce,
                salt: self.salt,
                wrap_all: self.wrap_all,
            },
        )
    }

    /// Encrypts the data held. A builder without settings, data, password or
    /// nonce is refused with `BuildFailed` and the name of the first of them
    /// that is missing; otherwise the outcome is that of [`encrypt`].
    pub fn encrypt(self) -> (r: Result<Vec<u8>, Errors>)
        requires
            self@.data matches Some(d) ==> d.len() < SIZE_CEILING,
        ensures
            match missing_for_encrypt(self@) {
                Some(name) => r matches Err(Errors::BuildFailed(m)) && m@ == name,
                None => {
                    let b = self@;
                    let data = b.data->Some_0;
                    &&& r matches Ok(blob) ==> data.len() > 0 && blob@ == spec_encrypt(
                        b.password->Some_0,
                        data,
                        b.nonce->Some_0@,
                        b.config->Some_0,
                        salt_view(b.salt),
                        b.wrap_all,
                    )
                    &&& r matches Err(e) ==> e is ThreadPool || (data.len() == 0 && e.reports(
                        Rejection::EmptyPayload,
                    ))
                },
            },
    {
        let inputs = match self.encrypt_inputs() {
            Ok(inputs) => inputs,
            Err(e) => {
                return Err(e);
            },
        };
        encrypt(
            inputs.password.as_str(),
            inputs.data.as_slice(),
            inputs.nonce,
            inputs.config,
            inputs.salt,
            inputs.wrap_all,
        )
    }

    /// Decrypts the blob held. A builder without settings, data or password
    /// is refused with `BuildFailed` and the name of the first of them that is
    /// missing; otherwise the outcome is that of [`decrypt`].
    pub fn decrypt(self) -> (r: Result<Vec<u8>, Errors>)
        requires
            self@.data matches Some(d) ==> d.len() < SIZE_CEILING,
        ensures
            match missing_for_decrypt(self@) {
                Some(name) => r matches Err(Errors::BuildFailed(m)) && m@ == name,
                None => {
                    let b = self@;
                    let outcome = spec_decrypt(
                        b.password->Some_0,
                        b.data->Some_0,
                        b.nonce,
                        b.config->Some_0,
                        b.salt,
                        b.wrap_all,
                    );
                    match r {
                        Ok(plain) => outcome == Ok::<Seq<u8>, Rejection>(plain@),
                        Err(e) => e is ThreadPool || refused_as(outcome, e),
                    }
                },
            },
    {
        let inputs = match self.decrypt_inputs() {
            Ok(inputs) => inputs,
            Err(e) => {
                return Err(e);
            },
        };
        decrypt(
            inputs.password.as_str(),
            inputs.data.as_slice(),
            inputs.nonce,
            inputs.config,
            inputs.salt,
            inputs.wrap_all,
        )
    }
}

} // verus!
