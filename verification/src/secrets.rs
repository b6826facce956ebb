//! Assembling the bot's configuration from the secret values the runtime
//! hands in, with the first missing key reported by name.

use vstd::prelude::*;

verus! {

/// The configuration secrets the service starts from.
#[derive(Debug)]
pub struct Secrets {
    pub discord_token: String,
    pub github_app_pem_key: String,
    pub github_personal_token: String,
    pub github_app_id: String,
    pub discord_server_staff_role_id: String,
    pub discord_server_id: String,
}

/// The key of one configuration secret.
#[derive(Clone, Copy, PartialEq, Eq, Structural, Debug)]
pub enum SecretKey {
    DiscordToken,
    GithubAppPrivateKey,
    GithubPersonalToken,
    GithubAppId,
    DiscordServerStaffRoleId,
    DiscordServerId,
}

impl SecretKey {
    /// The name under which the key is looked up in the secret store.
    pub fn name(&self) -> (r: &'static str)
        ensures
            *self == SecretKey::DiscordToken ==> r@ == "DISCORD_TOKEN"@,
            *self == SecretKey::GithubAppPrivateKey ==> r@ == "GITHUB_APP_PRIVATE_KEY"@,
            *self == SecretKey::GithubPersonalToken ==> r@ == "GITHUB_PERSONAL_TOKEN"@,
            *self == SecretKey::GithubAppId ==> r@ == "GITHUB_APP_ID"@,
            *self == SecretKey::DiscordServerStaffRoleId ==> r@ == "DISCORD_SERVER_STAFF_ROLE_ID"@,
            *self == SecretKey::DiscordServerId ==> r@ == "DISCORD_SERVER_ID"@,
    {
        match self {
            SecretKey::DiscordToken => "DISCORD_TOKEN",
            SecretKey::GithubAppPrivateKey => "GITHUB_APP_PRIVATE_KEY",
            SecretKey::GithubPersonalToken => "GITHUB_PERSONAL_TOKEN",
            SecretKey::GithubAppId => "GITHUB_APP_ID",
            SecretKey::DiscordServerStaffRoleId => "DISCORD_SERVER_STAFF_ROLE_ID",
            SecretKey::DiscordServerId => "DISCORD_SERVER_ID",
        }
    }
}

/// Builds the configuration from the looked-up secret values. Every value
/// must be present; the first missing one, in lookup order, is reported
/// as the error.
pub fn get_secrets(
    discord_token: Option<String>,
    github_app_pem_key: Option<String>,
    github_personal_token: Option<String>,
    github_app_id: Option<String>,
    discord_server_staff_role_id: Option<String>,
    discord_server_id: Option<String>,
) -> (r: Result<Secrets, SecretKey>)
    ensures
        discord_token is None ==> r == Err::<Secrets, SecretKey>(SecretKey::DiscordToken),
        discord_token is Some && github_app_pem_key is None ==> r == Err::<Secrets, SecretKey>(
            SecretKey::GithubAppPrivateKey,
        ),
        discord_token is Some && github_app_pem_key is Some && github_personal_token is None ==> r
            == Err::<Secrets, SecretKey>(SecretKey::GithubPersonalToken),
        discord_token is Some && github_app_pem_key is Some && github_personal_token is Some
            && github_app_id is None ==> r == Err::<Secrets, SecretKey>(SecretKey::GithubAppId),
        discord_token is Some && github_app_pem_key is Some && github_personal_token is Some
            && github_app_id is Some && discord_server_staff_role_id is None ==> r == Err::<
            Secrets,
            SecretKey,
        >(SecretKey::DiscordServerStaffRoleId),
        discord_token is Some && github_app_pem_key is Some && github_personal_token is Some
            && github_app_id is Some && discord_server_staff_role_id is Some && discord_server_id
            is None ==> r == Err::<Secrets, SecretKey>(SecretKey::DiscordServerId),
        r matches Ok(s) ==> discord_token == Some(s.discord_token) && github_app_pem_key == Some(
            s.github_app_pem_key,
        ) && github_personal_token == Some(s.github_personal_token) && github_app_id == Some(
            s.github_app_id,
        ) && discord_server_staff_role_id == Some(s.discord_server_staff_role_id)
            && discord_server_id == Some(s.discord_server_id),
        r is Ok <==> discord_token is Some && github_app_pem_key is Some && github_personal_token
            is Some && github_app_id is Some && discord_server_staff_role_id is Some
            && discord_server_id is Some,
{
    let discord_token = match discord_token {
        Option::Some(v) => v,
        Option::None => {
            return Err(SecretKey::DiscordToken);
        },
    };
    let github_app_pem_key = match github_app_pem_key {
        Option::Some(v) => v,
        Option::None => {
            return Err(SecretKey::GithubAppPrivateKey);
        },
    };
    let github_personal_token = match github_personal_token {
        Option::Some(v) => v,
        Option::None => {
            return Err(SecretKey::GithubPersonalToken);
        },
    };
    let github_app_id = match github_app_id {
        Option::Some(v) => v,
        Option::None => {
            return Err(SecretKey::GithubAppId);
        },
    };
    let discord_server_staff_role_id = match discord_server_staff_role_id {
        Option::Some(v) => v,
        Option::None => {
            return Err(SecretKey::DiscordServerStaffRoleId);
        },
    };
    let discord_server_id = match discord_server_id {
        Option::Some(v) => v,
        Option::None => {
            return Err(SecretKey::DiscordServerId);
        },
    };
    Ok(Secrets {
        discord_token,
        github_app_pem_key,
        github_personal_token,
        github_app_id,
        discord_server_staff_role_id,
        discord_server_id,
    })
}

} // verus!
