//! The identity-provider profile snapshot and the authenticated-user value
//! handed to request handlers.

use vstd::prelude::*;

verus! {

/// Profile snapshot fetched from the identity provider. Immutable once
/// fetched; embedded into the session claim it seeds.
#[derive(Clone, Debug)]
pub struct DiscordUser {
    pub id: String,
    pub username: String,
    pub discriminator: String,
    pub avatar: Option<String>,
    pub bot: Option<bool>,
    pub system: Option<bool>,
    pub mfa_enabled: Option<bool>,
    pub locale: Option<String>,
    pub verified: Option<bool>,
    pub email: Option<String>,
    pub flags: Option<u128>,
    pub premium_type: Option<u8>,
    pub public_flags: Option<u128>,
}

/// Mathematical model of a [`DiscordUser`]: every string replaced by its
/// character sequence.
pub ghost struct UserView {
    pub id: Seq<char>,
    pub username: Seq<char>,
    pub discriminator: Seq<char>,
    pub avatar: Option<Seq<char>>,
    pub bot: Option<bool>,
    pub system: Option<bool>,
    pub mfa_enabled: Option<bool>,
    pub locale: Option<Seq<char>>,
    pub verified: Option<bool>,
    pub email: Option<Seq<char>>,
    pub flags: Option<u128>,
    pub premium_type: Option<u8>,
    pub public_flags: Option<u128>,
}

pub open spec fn opt_str_view(o: Option<String>) -> Option<Seq<char>> {
    match o {
        Option::None => Option::None,
        Option::Some(s) => Option::Some(s@),
    }
}

impl View for DiscordUser {
    type V = UserView;

    open spec fn view(&self) -> UserView {
        UserView {
            id: self.id@,
            username: self.username@,
            discriminator: self.discriminator@,
            avatar: opt_str_view(self.avatar),
            bot: self.bot,
            system: self.system,
            mfa_enabled: self.mfa_enabled,
            locale: opt_str_view(self.locale),
            verified: self.verified,
            email: opt_str_view(self.email),
            flags: self.flags,
            premium_type: self.premium_type,
            public_flags: self.public_flags,
        }
    }
}

impl UserView {
    /// The `username#discriminator` form of the user's handle.
    pub open spec fn spec_tag(self) -> Seq<char> {
        self.username + seq!['#'] + self.discriminator
    }
}

impl DiscordUser {
    /// The user's handle, `username#discriminator`.
    pub fn tag(&self) -> (r: String)
        ensures
            r@ == self@.spec_tag(),
    {
        let mut r = self.username.clone();
        r.append("#");
        r.append(self.discriminator.as_str());
        proof {
            reveal_strlit("#");
            assert(r@ =~= self@.spec_tag());
        }
        r
    }
}

/// The trusted identity value produced by the extractor for a request that
/// carried a valid credential.
#[derive(Clone, Debug)]
pub struct AuthUser {
    pub id: String,
    pub discord: DiscordUser,
}

} // verus!
