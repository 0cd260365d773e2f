use vstd::prelude::*;
use vstd::string::*;
use crate::record::{str_or, Record, RecordView};

verus! {

pub const OTP_SUBJECT: &'static str = "Your login code";

pub const OTP_BODY_PREFIX: &'static str = "Enter this as password: ";

/// A message to send by e-mail.
pub struct Email {
    pub to: String,
    pub subject: String,
    pub body: String,
}

/// The message that carries the one-time code of `itm`, if it has both an
/// e-mail address and a code.
pub open spec fn otp_email_spec(itm: RecordView) -> Option<(Seq<char>, Seq<char>, Seq<char>)> {
    let email = str_or(itm, "email"@, ""@);
    let otp = str_or(itm, "otp"@, ""@);
    if email.len() == 0 || otp.len() == 0 {
        None
    } else {
        Some((email, OTP_SUBJECT@, OTP_BODY_PREFIX@ + otp))
    }
}

/// The login code message for `itm`: to its e-mail address, with the fixed
/// subject and the one-time code in the body; none where the record lacks
/// an address or a code.
pub fn otp_email(itm: &Record) -> (r: Option<Email>)
    ensures
        match r {
            Some(m) => otp_email_spec(itm@) == Some((m.to@, m.subject@, m.body@)),
            None => otp_email_spec(itm@) is None,
        },
{
    let email = itm.safe_str("email", "");
    let otp = itm.safe_str("otp", "");
    if email.as_str().is_empty() || otp.as_str().is_empty() {
        return None;
    }
    let body = String::from_str(OTP_BODY_PREFIX).concat(otp.as_str());
    Some(Email { to: email, subject: String::from_str(OTP_SUBJECT), body })
}

} // verus!
