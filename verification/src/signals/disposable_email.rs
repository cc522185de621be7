//! Disposable / temporary e-mail domain detection.
use vstd::prelude::*;
use crate::text;

verus! {

/// Known disposable e-mail providers: lowercase, sorted, no duplicates.
pub const BUILTIN_DISPOSABLE_DOMAINS: [&'static str; 52] = [
    "10minutemail.com",
    "anonaddy.me",
    "armyspy.com",
    "cuvox.de",
    "dayrep.com",
    "deadaddress.com",
    "dispostable.com",
    "einrot.com",
    "fakeinbox.com",
    "fleckens.hu",
    "getairmail.com",
    "guerrillamail.biz",
    "guerrillamail.com",
    "guerrillamail.de",
    "guerrillamail.info",
    "guerrillamail.net",
    "guerrillamail.org",
    "guerrillamailblock.com",
    "harakirimail.com",
    "inboxbear.com",
    "jetable.org",
    "mailcatch.com",
    "maildrop.cc",
    "mailforspam.com",
    "mailinator.com",
    "mailnesia.com",
    "mintemail.com",
    "mohmal.com",
    "mytrashmail.com",
    "nowmymail.com",
    "rhyta.com",
    "sharklasers.com",
    "spam4.me",
    "spambox.us",
    "spamgourmet.com",
    "spamherelots.com",
    "superrito.com",
    "teleworm.us",
    "temp-mail.org",
    "tempail.com",
    "tempinbox.com",
    "tempmail.com",
    "tempmail.plus",
    "tempmailaddress.com",
    "tempmailo.com",
    "throwawaymail.com",
    "trashmail.com",
    "trashmail.de",
    "tutanota.com",
    "yopmail.com",
    "yopmail.fr",
    "yopmail.net",
];

/// A domain as the lookups compare it: trimmed and ASCII-lowercased.
pub open spec fn normalise(s: Seq<char>) -> Seq<char> {
    text::lower(text::trim(s))
}

/// Domain lookups ignore ASCII case and surrounding white space: a domain
/// and its upper-case spelling normalise alike, so every lookup answers the
/// same for both.
pub proof fn lemma_lookup_ignores_case(domain: Seq<char>)
    ensures
        normalise(text::upper(domain)) == normalise(domain),
{
    text::lemma_fold_case(domain);
}

/// A domain with no upper-case letter and no white space at its ends is
/// its own normal form.
proof fn lemma_plain_is_normal(s: Seq<char>)
    requires
        s.len() > 0,
        !text::is_ws(s[0]),
        !text::is_ws(s.last()),
        forall|i: int| 0 <= i < s.len() ==> !text::is_ascii_upper(#[trigger] s[i]),
    ensures
        normalise(s) == s,
{
    assert(text::trim_start(s) == s);
    assert(text::trim_end(s) == s);
    assert(text::lower(s) =~= s);
}

/// Entries 0 to 8 of the built-in list are normalised and non-empty.
#[verifier::spinoff_prover]
proof fn lemma_builtin_entries_normal_0()
    ensures
        text::table_view(BUILTIN_DISPOSABLE_DOMAINS)[0].len() > 0 && normalise(text::table_view(BUILTIN_DISPOSABLE_DOMAINS)[0]) == text::table_view(BUILTIN_DISPOSABLE_DOMAINS)[0],
        text::table_view(BUILTIN_DISPOSABLE_DOMAINS)[1].len() > 0 && normalise(text::table_view(BUILTIN_DISPOSABLE_DOMAINS)[1]) == text::table_view(BUILTIN_DISPOSABLE_DOMAINS)[1],
        text::table_view(BUILTIN_DISPOSABLE_DOMAINS)[2].len() > 0 && normalise(text::table_view(BUILTIN_DISPOSABLE_DOMAINS)[2]) == text::table_view(BUILTIN_DISPOSABLE_DOMAINS)[2],
        text::table_view(BUILTIN_DISPOSABLE_DOMAINS)[3].len() > 0 && normalise(text::table_view(BUILTIN_DISPOSABLE_DOMAINS)[3]) == text::table_view(BUILTIN_DISPOSABLE_DOMAINS)[3],
        text::table_view(BUILTIN_DISPOSABLE_DOMAINS)[4].len() > 0 && normalise(text::table_view(BUILTIN_DISPOSABLE_DOMAINS)[4]) == text::table_view(BUILTIN_DISPOSABLE_DOMAINS)[4],
        text::table_view(BUILTIN_DISPOSABLE_DOMAINS)[5].len() > 0 && normalise(text::table_view(BUILTIN_DISPOSABLE_DOMAINS)[5]) == text::table_view(BUILTIN_DISPOSABLE_DOMAINS)[5],
        text::table_view(BUILTIN_DISPOSABLE_DOMAINS)[6].len() > 0 && normalise(text::table_view(BUILTIN_DISPOSABLE_DOMAINS)[6]) == text::table_view(BUILTIN_DISPOSABLE_DOMAINS)[6],
        text::table_view(BUILTIN_DISPOSABLE_DOMAINS)[7].len() > 0 && normalise(text::table_view(BUILTIN_DISPOSABLE_DOMAINS)[7]) == text::table_view(BUILTIN_DISPOSABLE_DOMAINS)[7],
        text::table_view(BUILTIN_DISPOSABLE_DOMAINS)[8].len() > 0 && normalise(text::table_view(BUILTIN_DISPOSABLE_DOMAINS)[8]) == text::table_view(BUILTIN_DISPOSABLE_DOMAINS)[8],
{
    let tv = text::table_view(BUILTIN_DISPOSABLE_DOMAINS);
    assert(tv[0].len() > 0 && normalise(tv[0]) == tv[0]) by {
        reveal_strlit("10minutemail.com");
        assert(tv[0] == "10minutemail.com"@);
        lemma_plain_is_normal("10minutemail.com"@);
    }
    assert(tv[1].len() > 0 && normalise(tv[1]) == tv[1]) by {
        reveal_strlit("anonaddy.me");
        assert(tv[1] == "anonaddy.me"@);
        lemma_plain_is_normal("anonaddy.me"@);
    }
    assert(tv[2].len() > 0 && normalise(tv[2]) == tv[2]) by {
        reveal_strlit("armyspy.com");
        assert(tv[2] == "armyspy.com"@);
        lemma_plain_is_normal("armyspy.com"@);
    }
    assert(tv[3].len() > 0 && normalise(tv[3]) == tv[3]) by {
        reveal_strlit("cuvox.de");
        assert(tv[3] == "cuvox.de"@);
        lemma_plain_is_normal("cuvox.de"@);
    }
    assert(tv[4].len() > 0 && normalise(tv[4]) == tv[4]) by {
        reveal_strlit("dayrep.com");
        assert(tv[4] == "dayrep.com"@);
        lemma_plain_is_normal("dayrep.com"@);
    }
    assert(tv[5].len() > 0 && normalise(tv[5]) == tv[5]) by {
        reveal_strlit("deadaddress.com");
        assert(tv[5] == "deadaddress.com"@);
        lemma_plain_is_normal("deadaddress.com"@);
    }
    assert(tv[6].len() > 0 && normalise(tv[6]) == tv[6]) by {
        reveal_strlit("dispostable.com");
        assert(tv[6] == "dispostable.com"@);
        lemma_plain_is_normal("dispostable.com"@);
    }
    assert(tv[7].len() > 0 && normalise(tv[7]) == tv[7]) by {
        reveal_strlit("einrot.com");
        assert(tv[7] == "einrot.com"@);
        lemma_plain_is_normal("einrot.com"@);
    }
    assert(tv[8].len() > 0 && normalise(tv[8]) == tv[8]) by {
        reveal_strlit("fakeinbox.com");
        assert(tv[8] == "fakeinbox.com"@);
        lemma_plain_is_normal("fakeinbox.com"@);
    }
}

/// Entries 9 to 17 of the built-in list are normalised and non-empty.
#[verifier::spinoff_prover]
proof fn lemma_builtin_entries_normal_1()
    ensures
        text::table_view(BUILTIN_DISPOSABLE_DOMAINS)[9].len() > 0 && normalise(text::table_view(BUILTIN_DISPOSABLE_DOMAINS)[9]) == text::table_view(BUILTIN_DISPOSABLE_DOMAINS)[9],
        text::table_view(BUILTIN_DISPOSABLE_DOMAINS)[10].len() > 0 && normalise(text::table_view(BUILTIN_DISPOSABLE_DOMAINS)[10]) == text::table_view(BUILTIN_DISPOSABLE_DOMAINS)[10],
        text::table_view(BUILTIN_DISPOSABLE_DOMAINS)[11].len() > 0 && normalise(text::table_view(BUILTIN_DISPOSABLE_DOMAINS)[11]) == text::table_view(BUILTIN_DISPOSABLE_DOMAINS)[11],
        text::table_view(BUILTIN_DISPOSABLE_DOMAINS)[12].len() > 0 && normalise(text::table_view(BUILTIN_DISPOSABLE_DOMAINS)[12]) == text::table_view(BUILTIN_DISPOSABLE_DOMAINS)[12],
        text::table_view(BUILTIN_DISPOSABLE_DOMAINS)[13].len() > 0 && normalise(text::table_view(BUILTIN_DISPOSABLE_DOMAINS)[13]) == text::table_view(BUILTIN_DISPOSABLE_DOMAINS)[13],
        text::table_view(BUILTIN_DISPOSABLE_DOMAINS)[14].len() > 0 && normalise(text::table_view(BUILTIN_DISPOSABLE_DOMAINS)[14]) == text::table_view(BUILTIN_DISPOSABLE_DOMAINS)[14],
        text::table_view(BUILTIN_DISPOSABLE_DOMAINS)[15].len() > 0 && normalise(text::table_view(BUILTIN_DISPOSABLE_DOMAINS)[15]) == text::table_view(BUILTIN_DISPOSABLE_DOMAINS)[15],
        text::table_view(BUILTIN_DISPOSABLE_DOMAINS)[16].len() > 0 && normalise(text::table_view(BUILTIN_DISPOSABLE_DOMAINS)[16]) == text::table_view(BUILTIN_DISPOSABLE_DOMAINS)[16],
        text::table_view(BUILTIN_DISPOSABLE_DOMAINS)[17].len() > 0 && normalise(text::table_view(BUILTIN_DISPOSABLE_DOMAINS)[17]) == text::table_view(BUILTIN_DISPOSABLE_DOMAINS)[17],
{
    let tv = text::table_view(BUILTIN_DISPOSABLE_DOMAINS);
    assert(tv[9].len() > 0 && normalise(tv[9]) == tv[9]) by {
        reveal_strlit("fleckens.hu");
        assert(tv[9] == "fleckens.hu"@);
        lemma_plain_is_normal("fleckens.hu"@);
    }
    assert(tv[10].len() > 0 && normalise(tv[10]) == tv[10]) by {
        reveal_strlit("getairmail.com");
        assert(tv[10] == "getairmail.com"@);
        lemma_plain_is_normal("getairmail.com"@);
    }
    assert(tv[11].len() > 0 && normalise(tv[11]) == tv[11]) by {
        reveal_strlit("guerrillamail.biz");
        assert(tv[11] == "guerrillamail.biz"@);
        lemma_plain_is_normal("guerrillamail.biz"@);
    }
    assert(tv[12].len() > 0 && normalise(tv[12]) == tv[12]) by {
        reveal_strlit("guerrillamail.com");
        assert(tv[12] == "guerrillamail.com"@);
        lemma_plain_is_normal("guerrillamail.com"@);
    }
    assert(tv[13].len() > 0 && normalise(tv[13]) == tv[13]) by {
        reveal_strlit("guerrillamail.de");
        assert(tv[13] == "guerrillamail.de"@);
        lemma_plain_is_normal("guerrillamail.de"@);
    }
    assert(tv[14].len() > 0 && normalise(tv[14]) == tv[14]) by {
        reveal_strlit("guerrillamail.info");
        assert(tv[14] == "guerrillamail.info"@);
        lemma_plain_is_normal("guerrillamail.info"@);
    }
    assert(tv[15].len() > 0 && normalise(tv[15]) == tv[15]) by {
        reveal_strlit("guerrillamail.net");
        assert(tv[15] == "guerrillamail.net"@);
        lemma_plain_is_normal("guerrillamail.net"@);
    }
    assert(tv[16].len() > 0 && normalise(tv[16]) == tv[16]) by {
        reveal_strlit("guerrillamail.org");
        assert(tv[16] == "guerrillamail.org"@);
        lemma_plain_is_normal("guerrillamail.org"@);
    }
    assert(tv[17].len() > 0 && normalise(tv[17]) == tv[17]) by {
        reveal_strlit("guerrillamailblock.com");
        assert(tv[17] == "guerrillamailblock.com"@);
        lemma_plain_is_normal("guerrillamailblock.com"@);
    }
}

/// Entries 18 to 26 of the built-in list are normalised and non-empty.
#[verifier::spinoff_prover]
proof fn lemma_builtin_entries_normal_2()
    ensures
        text::table_view(BUILTIN_DISPOSABLE_DOMAINS)[18].len() > 0 && normalise(text::table_view(BUILTIN_DISPOSABLE_DOMAINS)[18]) == text::table_view(BUILTIN_DISPOSABLE_DOMAINS)[18],
        text::table_view(BUILTIN_DISPOSABLE_DOMAINS)[19].len() > 0 && normalise(text::table_view(BUILTIN_DISPOSABLE_DOMAINS)[19]) == text::table_view(BUILTIN_DISPOSABLE_DOMAINS)[19],
        text::table_view(BUILTIN_DISPOSABLE_DOMAINS)[20].len() > 0 && normalise(text::table_view(BUILTIN_DISPOSABLE_DOMAINS)[20]) == text::table_view(BUILTIN_DISPOSABLE_DOMAINS)[20],
        text::table_view(BUILTIN_DISPOSABLE_DOMAINS)[21].len() > 0 && normalise(text::table_view(BUILTIN_DISPOSABLE_DOMAINS)[21]) == text::table_view(BUILTIN_DISPOSABLE_DOMAINS)[21],
        text::table_view(BUILTIN_DISPOSABLE_DOMAINS)[22].len() > 0 && normalise(text::table_view(BUILTIN_DISPOSABLE_DOMAINS)[22]) == text::table_view(BUILTIN_DISPOSABLE_DOMAINS)[22],
        text::table_view(BUILTIN_DISPOSABLE_DOMAINS)[23].len() > 0 && normalise(text::table_view(BUILTIN_DISPOSABLE_DOMAINS)[23]) == text::table_view(BUILTIN_DISPOSABLE_DOMAINS)[23],
        text::table_view(BUILTIN_DISPOSABLE_DOMAINS)[24].len() > 0 && normalise(text::table_view(BUILTIN_DISPOSABLE_DOMAINS)[24]) == text::table_view(BUILTIN_DISPOSABLE_DOMAINS)[24],
        text::table_view(BUILTIN_DISPOSABLE_DOMAINS)[25].len() > 0 && normalise(text::table_view(BUILTIN_DISPOSABLE_DOMAINS)[25]) == text::table_view(BUILTIN_DISPOSABLE_DOMAINS)[25],
        text::table_view(BUILTIN_DISPOSABLE_DOMAINS)[26].len() > 0 && normalise(text::table_view(BUILTIN_DISPOSABLE_DOMAINS)[26]) == text::table_view(BUILTIN_DISPOSABLE_DOMAINS)[26],
{
    let tv = text::table_view(BUILTIN_DISPOSABLE_DOMAINS);
    assert(tv[18].len() > 0 && normalise(tv[18]) == tv[18]) by {
        reveal_strlit("harakirimail.com");
        assert(tv[18] == "harakirimail.com"@);
        lemma_plain_is_normal("harakirimail.com"@);
    }
    assert(tv[19].len() > 0 && normalise(tv[19]) == tv[19]) by {
        reveal_strlit("inboxbear.com");
        assert(tv[19] == "inboxbear.com"@);
        lemma_plain_is_normal("inboxbear.com"@);
    }
    assert(tv[20].len() > 0 && normalise(tv[20]) == tv[20]) by {
        reveal_strlit("jetable.org");
        assert(tv[20] == "jetable.org"@);
        lemma_plain_is_normal("jetable.org"@);
    }
    assert(tv[21].len() > 0 && normalise(tv[21]) == tv[21]) by {
        reveal_strlit("mailcatch.com");
        assert(tv[21] == "mailcatch.com"@);
        lemma_plain_is_normal("mailcatch.com"@);
    }
    assert(tv[22].len() > 0 && normalise(tv[22]) == tv[22]) by {
        reveal_strlit("maildrop.cc");
        assert(tv[22] == "maildrop.cc"@);
        lemma_plain_is_normal("maildrop.cc"@);
    }
    assert(tv[23].len() > 0 && normalise(tv[23]) == tv[23]) by {
        reveal_strlit("mailforspam.com");
        assert(tv[23] == "mailforspam.com"@);
        lemma_plain_is_normal("mailforspam.com"@);
    }
    assert(tv[24].len() > 0 && normalise(tv[24]) == tv[24]) by {
        reveal_strlit("mailinator.com");
        assert(tv[24] == "mailinator.com"@);
        lemma_plain_is_normal("mailinator.com"@);
    }
    assert(tv[25].len() > 0 && normalise(tv[25]) == tv[25]) by {
        reveal_strlit("mailnesia.com");
        assert(tv[25] == "mailnesia.com"@);
        lemma_plain_is_normal("mailnesia.com"@);
    }
    assert(tv[26].len() > 0 && normalise(tv[26]) == tv[26]) by {
        reveal_strlit("mintemail.com");
        assert(tv[26] == "mintemail.com"@);
        lemma_plain_is_normal("mintemail.com"@);
    }
}

/// Entries 27 to 35 of the built-in list are normalised and non-empty.
#[verifier::spinoff_prover]
proof fn lemma_builtin_entries_normal_3()
    ensures
        text::table_view(BUILTIN_DISPOSABLE_DOMAINS)[27].len() > 0 && normalise(text::table_view(BUILTIN_DISPOSABLE_DOMAINS)[27]) == text::table_view(BUILTIN_DISPOSABLE_DOMAINS)[27],
        text::table_view(BUILTIN_DISPOSABLE_DOMAINS)[28].len() > 0 && normalise(text::table_view(BUILTIN_DISPOSABLE_DOMAINS)[28]) == text::table_view(BUILTIN_DISPOSABLE_DOMAINS)[28],
        text::table_view(BUILTIN_DISPOSABLE_DOMAINS)[29].len() > 0 && normalise(text::table_view(BUILTIN_DISPOSABLE_DOMAINS)[29]) == text::table_view(BUILTIN_DISPOSABLE_DOMAINS)[29],
        text::table_view(BUILTIN_DISPOSABLE_DOMAINS)[30].len() > 0 && normalise(text::table_view(BUILTIN_DISPOSABLE_DOMAINS)[30]) == text::table_view(BUILTIN_DISPOSABLE_DOMAINS)[30],
        text::table_view(BUILTIN_DISPOSABLE_DOMAINS)[31].len() > 0 && normalise(text::table_view(BUILTIN_DISPOSABLE_DOMAINS)[31]) == text::table_view(BUILTIN_DISPOSABLE_DOMAINS)[31],
        text::table_view(BUILTIN_DISPOSABLE_DOMAINS)[32].len() > 0 && normalise(text::table_view(BUILTIN_DISPOSABLE_DOMAINS)[32]) == text::table_view(BUILTIN_DISPOSABLE_DOMAINS)[32],
        text::table_view(BUILTIN_DISPOSABLE_DOMAINS)[33].len() > 0 && normalise(text::table_view(BUILTIN_DISPOSABLE_DOMAINS)[33]) == text::table_view(BUILTIN_DISPOSABLE_DOMAINS)[33],
        text::table_view(BUILTIN_DISPOSABLE_DOMAINS)[34].len() > 0 && normalise(text::table_view(BUILTIN_DISPOSABLE_DOMAINS)[34]) == text::table_view(BUILTIN_DISPOSABLE_DOMAINS)[34],
        text::table_view(BUILTIN_DISPOSABLE_DOMAINS)[35].len() > 0 && normalise(text::table_view(BUILTIN_DISPOSABLE_DOMAINS)[35]) == text::table_view(BUILTIN_DISPOSABLE_DOMAINS)[35],
{
    let tv = text::table_view(BUILTIN_DISPOSABLE_DOMAINS);
    assert(tv[27].len() > 0 && normalise(tv[27]) == tv[27]) by {
        reveal_strlit("mohmal.com");
        assert(tv[27] == "mohmal.com"@);
        lemma_plain_is_normal("mohmal.com"@);
    }
    assert(tv[28].len() > 0 && normalise(tv[28]) == tv[28]) by {
        reveal_strlit("mytrashmail.com");
        assert(tv[28] == "mytrashmail.com"@);
        lemma_plain_is_normal("mytrashmail.com"@);
    }
    assert(tv[29].len() > 0 && normalise(tv[29]) == tv[29]) by {
        reveal_strlit("nowmymail.com");
        assert(tv[29] == "nowmymail.com"@);
        lemma_plain_is_normal("nowmymail.com"@);
    }
    assert(tv[30].len() > 0 && normalise(tv[30]) == tv[30]) by {
        reveal_strlit("rhyta.com");
        assert(tv[30] == "rhyta.com"@);
        lemma_plain_is_normal("rhyta.com"@);
    }
    assert(tv[31].len() > 0 && normalise(tv[31]) == tv[31]) by {
        reveal_strlit("sharklasers.com");
        assert(tv[31] == "sharklasers.com"@);
        lemma_plain_is_normal("sharklasers.com"@);
    }
    assert(tv[32].len() > 0 && normalise(tv[32]) == tv[32]) by {
        reveal_strlit("spam4.me");
        assert(tv[32] == "spam4.me"@);
        lemma_plain_is_normal("spam4.me"@);
    }
    assert(tv[33].len() > 0 && normalise(tv[33]) == tv[33]) by {
        reveal_strlit("spambox.us");
        assert(tv[33] == "spambox.us"@);
        lemma_plain_is_normal("spambox.us"@);
    }
    assert(tv[34].len() > 0 && normalise(tv[34]) == tv[34]) by {
        reveal_strlit("spamgourmet.com");
        assert(tv[34] == "spamgourmet.com"@);
        lemma_plain_is_normal("spamgourmet.com"@);
    }
    assert(tv[35].len() > 0 && normalise(tv[35]) == tv[35]) by {
        reveal_strlit("spamherelots.com");
        assert(tv[35] == "spamherelots.com"@);
        lemma_plain_is_normal("spamherelots.com"@);
    }
}

/// Entries 36 to 44 of the built-in list are normalised and non-empty.
#[verifier::spinoff_prover]
proof fn lemma_builtin_entries_normal_4()
    ensures
        text::table_view(BUILTIN_DISPOSABLE_DOMAINS)[36].len() > 0 && normalise(text::table_view(BUILTIN_DISPOSABLE_DOMAINS)[36]) == text::table_view(BUILTIN_DISPOSABLE_DOMAINS)[36],
        text::table_view(BUILTIN_DISPOSABLE_DOMAINS)[37].len() > 0 && normalise(text::table_view(BUILTIN_DISPOSABLE_DOMAINS)[37]) == text::table_view(BUILTIN_DISPOSABLE_DOMAINS)[37],
        text::table_view(BUILTIN_DISPOSABLE_DOMAINS)[38].len() > 0 && normalise(text::table_view(BUILTIN_DISPOSABLE_DOMAINS)[38]) == text::table_view(BUILTIN_DISPOSABLE_DOMAINS)[38],
        text::table_view(BUILTIN_DISPOSABLE_DOMAINS)[39].len() > 0 && normalise(text::table_view(BUILTIN_DISPOSABLE_DOMAINS)[39]) == text::table_view(BUILTIN_DISPOSABLE_DOMAINS)[39],
        text::table_view(BUILTIN_DISPOSABLE_DOMAINS)[40].len() > 0 && normalise(text::table_view(BUILTIN_DISPOSABLE_DOMAINS)[40]) == text::table_view(BUILTIN_DISPOSABLE_DOMAINS)[40],
        text::table_view(BUILTIN_DISPOSABLE_DOMAINS)[41].len() > 0 && normalise(text::table_view(BUILTIN_DISPOSABLE_DOMAINS)[41]) == text::table_view(BUILTIN_DISPOSABLE_DOMAINS)[41],
        text::table_view(BUILTIN_DISPOSABLE_DOMAINS)[42].len() > 0 && normalise(text::table_view(BUILTIN_DISPOSABLE_DOMAINS)[42]) == text::table_view(BUILTIN_DISPOSABLE_DOMAINS)[42],
        text::table_view(BUILTIN_DISPOSABLE_DOMAINS)[43].len() > 0 && normalise(text::table_view(BUILTIN_DISPOSABLE_DOMAINS)[43]) == text::table_view(BUILTIN_DISPOSABLE_DOMAINS)[43],
        text::table_view(BUILTIN_DISPOSABLE_DOMAINS)[44].len() > 0 && normalise(text::table_view(BUILTIN_DISPOSABLE_DOMAINS)[44]) == text::table_view(BUILTIN_DISPOSABLE_DOMAINS)[44],
{
    let tv = text::table_view(BUILTIN_DISPOSABLE_DOMAINS);
    assert(tv[36].len() > 0 && normalise(tv[36]) == tv[36]) by {
        reveal_strlit("superrito.com");
        assert(tv[36] == "superrito.com"@);
        lemma_plain_is_normal("superrito.com"@);
    }
    assert(tv[37].len() > 0 && normalise(tv[37]) == tv[37]) by {
        reveal_strlit("teleworm.us");
        assert(tv[37] == "teleworm.us"@);
        lemma_plain_is_normal("teleworm.us"@);
    }
    assert(tv[38].len() > 0 && normalise(tv[38]) == tv[38]) by {
        reveal_strlit("temp-mail.org");
        assert(tv[38] == "temp-mail.org"@);
        lemma_plain_is_normal("temp-mail.org"@);
    }
    assert(tv[39].len() > 0 && normalise(tv[39]) == tv[39]) by {
        reveal_strlit("tempail.com");
        assert(tv[39] == "tempail.com"@);
        lemma_plain_is_normal("tempail.com"@);
    }
    assert(tv[40].len() > 0 && normalise(tv[40]) == tv[40]) by {
        reveal_strlit("tempinbox.com");
        assert(tv[40] == "tempinbox.com"@);
        lemma_plain_is_normal("tempinbox.com"@);
    }
    assert(tv[41].len() > 0 && normalise(tv[41]) == tv[41]) by {
        reveal_strlit("tempmail.com");
        assert(tv[41] == "tempmail.com"@);
        lemma_plain_is_normal("tempmail.com"@);
    }
    assert(tv[42].len() > 0 && normalise(tv[42]) == tv[42]) by {
        reveal_strlit("tempmail.plus");
        assert(tv[42] == "tempmail.plus"@);
        lemma_plain_is_normal("tempmail.plus"@);
    }
    assert(tv[43].len() > 0 && normalise(tv[43]) == tv[43]) by {
        reveal_strlit("tempmailaddress.com");
        assert(tv[43] == "tempmailaddress.com"@);
        lemma_plain_is_normal("tempmailaddress.com"@);
    }
    assert(tv[44].len() > 0 && normalise(tv[44]) == tv[44]) by {
        reveal_strlit("tempmailo.com");
        assert(tv[44] == "tempmailo.com"@);
        lemma_plain_is_normal("tempmailo.com"@);
    }
}

/// Entries 45 to 51 of the built-in list are normalised and non-empty.
#[verifier::spinoff_prover]
proof fn lemma_builtin_entries_normal_5()
    ensures
        text::table_view(BUILTIN_DISPOSABLE_DOMAINS)[45].len() > 0 && normalise(text::table_view(BUILTIN_DISPOSABLE_DOMAINS)[45]) == text::table_view(BUILTIN_DISPOSABLE_DOMAINS)[45],
        text::table_view(BUILTIN_DISPOSABLE_DOMAINS)[46].len() > 0 && normalise(text::table_view(BUILTIN_DISPOSABLE_DOMAINS)[46]) == text::table_view(BUILTIN_DISPOSABLE_DOMAINS)[46],
        text::table_view(BUILTIN_DISPOSABLE_DOMAINS)[47].len() > 0 && normalise(text::table_view(BUILTIN_DISPOSABLE_DOMAINS)[47]) == text::table_view(BUILTIN_DISPOSABLE_DOMAINS)[47],
        text::table_view(BUILTIN_DISPOSABLE_DOMAINS)[48].len() > 0 && normalise(text::table_view(BUILTIN_DISPOSABLE_DOMAINS)[48]) == text::table_view(BUILTIN_DISPOSABLE_DOMAINS)[48],
        text::table_view(BUILTIN_DISPOSABLE_DOMAINS)[49].len() > 0 && normalise(text::table_view(BUILTIN_DISPOSABLE_DOMAINS)[49]) == text::table_view(BUILTIN_DISPOSABLE_DOMAINS)[49],
        text::table_view(BUILTIN_DISPOSABLE_DOMAINS)[50].len() > 0 && normalise(text::table_view(BUILTIN_DISPOSABLE_DOMAINS)[50]) == text::table_view(BUILTIN_DISPOSABLE_DOMAINS)[50],
        text::table_view(BUILTIN_DISPOSABLE_DOMAINS)[51].len() > 0 && normalise(text::table_view(BUILTIN_DISPOSABLE_DOMAINS)[51]) == text::table_view(BUILTIN_DISPOSABLE_DOMAINS)[51],
{
    let tv = text::table_view(BUILTIN_DISPOSABLE_DOMAINS);
    assert(tv[45].len() > 0 && normalise(tv[45]) == tv[45]) by {
        reveal_strlit("throwawaymail.com");
        assert(tv[45] == "throwawaymail.com"@);
        lemma_plain_is_normal("throwawaymail.com"@);
    }
    assert(tv[46].len() > 0 && normalise(tv[46]) == tv[46]) by {
        reveal_strlit("trashmail.com");
        assert(tv[46] == "trashmail.com"@);
        lemma_plain_is_normal("trashmail.com"@);
    }
    assert(tv[47].len() > 0 && normalise(tv[47]) == tv[47]) by {
        reveal_strlit("trashmail.de");
        assert(tv[47] == "trashmail.de"@);
        lemma_plain_is_normal("trashmail.de"@);
    }
    assert(tv[48].len() > 0 && normalise(tv[48]) == tv[48]) by {
        reveal_strlit("tutanota.com");
        assert(tv[48] == "tutanota.com"@);
        lemma_plain_is_normal("tutanota.com"@);
    }
    assert(tv[49].len() > 0 && normalise(tv[49]) == tv[49]) by {
        reveal_strlit("yopmail.com");
        assert(tv[49] == "yopmail.com"@);
        lemma_plain_is_normal("yopmail.com"@);
    }
    assert(tv[50].len() > 0 && normalise(tv[50]) == tv[50]) by {
        reveal_strlit("yopmail.fr");
        assert(tv[50] == "yopmail.fr"@);
        lemma_plain_is_normal("yopmail.fr"@);
    }
    assert(tv[51].len() > 0 && normalise(tv[51]) == tv[51]) by {
        reveal_strlit("yopmail.net");
        assert(tv[51] == "yopmail.net"@);
        lemma_plain_is_normal("yopmail.net"@);
    }
}

/// Every entry of the built-in list is already normalised and non-empty.
proof fn lemma_builtin_entries_normal()
    ensures
        forall|k: int| 0 <= k < 52 ==> (#[trigger] text::table_view(BUILTIN_DISPOSABLE_DOMAINS)[k]).len() > 0 && normalise(text::table_view(BUILTIN_DISPOSABLE_DOMAINS)[k]) == text::table_view(BUILTIN_DISPOSABLE_DOMAINS)[k],
{
    let tv = text::table_view(BUILTIN_DISPOSABLE_DOMAINS);
    lemma_builtin_entries_normal_0();
    lemma_builtin_entries_normal_1();
    lemma_builtin_entries_normal_2();
    lemma_builtin_entries_normal_3();
    lemma_builtin_entries_normal_4();
    lemma_builtin_entries_normal_5();
    assert forall|k: int| 0 <= k < 52 implies (#[trigger] tv[k]).len() > 0 && normalise(tv[k]) == tv[k] by {
        if k == 0 {} else if k == 1 {} else if k == 2 {} else if k == 3 {} else if k == 4 {} else if k == 5 {} else if k == 6 {} else if k == 7 {} else if k == 8 {} else if k == 9 {} else if k == 10 {} else if k == 11 {} else if k == 12 {} else if k == 13 {} else if k == 14 {} else if k == 15 {} else if k == 16 {} else if k == 17 {} else if k == 18 {} else if k == 19 {} else if k == 20 {} else if k == 21 {} else if k == 22 {} else if k == 23 {} else if k == 24 {} else if k == 25 {} else if k == 26 {} else if k == 27 {} else if k == 28 {} else if k == 29 {} else if k == 30 {} else if k == 31 {} else if k == 32 {} else if k == 33 {} else if k == 34 {} else if k == 35 {} else if k == 36 {} else if k == 37 {} else if k == 38 {} else if k == 39 {} else if k == 40 {} else if k == 41 {} else if k == 42 {} else if k == 43 {} else if k == 44 {} else if k == 45 {} else if k == 46 {} else if k == 47 {} else if k == 48 {} else if k == 49 {} else if k == 50 {} else if k == 51 {}
    }
}

/// Entries 0 to 6 of the built-in list each come strictly before the next.
#[verifier::spinoff_prover]
proof fn lemma_builtin_ascending_0()
    ensures
        text::seq_le(text::table_view(BUILTIN_DISPOSABLE_DOMAINS)[0], text::table_view(BUILTIN_DISPOSABLE_DOMAINS)[1]) && text::table_view(BUILTIN_DISPOSABLE_DOMAINS)[0] != text::table_view(BUILTIN_DISPOSABLE_DOMAINS)[1],
        text::seq_le(text::table_view(BUILTIN_DISPOSABLE_DOMAINS)[1], text::table_view(BUILTIN_DISPOSABLE_DOMAINS)[2]) && text::table_view(BUILTIN_DISPOSABLE_DOMAINS)[1] != text::table_view(BUILTIN_DISPOSABLE_DOMAINS)[2],
        text::seq_le(text::table_view(BUILTIN_DISPOSABLE_DOMAINS)[2], text::table_view(BUILTIN_DISPOSABLE_DOMAINS)[3]) && text::table_view(BUILTIN_DISPOSABLE_DOMAINS)[2] != text::table_view(BUILTIN_DISPOSABLE_DOMAINS)[3],
        text::seq_le(text::table_view(BUILTIN_DISPOSABLE_DOMAINS)[3], text::table_view(BUILTIN_DISPOSABLE_DOMAINS)[4]) && text::table_view(BUILTIN_DISPOSABLE_DOMAINS)[3] != text::table_view(BUILTIN_DISPOSABLE_DOMAINS)[4],
        text::seq_le(text::table_view(BUILTIN_DISPOSABLE_DOMAINS)[4], text::table_view(BUILTIN_DISPOSABLE_DOMAINS)[5]) && text::table_view(BUILTIN_DISPOSABLE_DOMAINS)[4] != text::table_view(BUILTIN_DISPOSABLE_DOMAINS)[5],
        text::seq_le(text::table_view(BUILTIN_DISPOSABLE_DOMAINS)[5], text::table_view(BUILTIN_DISPOSABLE_DOMAINS)[6]) && text::table_view(BUILTIN_DISPOSABLE_DOMAINS)[5] != text::table_view(BUILTIN_DISPOSABLE_DOMAINS)[6],
{
    let tv = text::table_view(BUILTIN_DISPOSABLE_DOMAINS);
    assert(text::seq_le(tv[0], tv[1]) && tv[0] != tv[1]) by {
        reveal_strlit("10minutemail.com");
        reveal_strlit("anonaddy.me");
        reveal_with_fuel(text::seq_le, 24);
        assert(tv[0] == "10minutemail.com"@);
        assert(tv[1] == "anonaddy.me"@);
    }
    assert(text::seq_le(tv[1], tv[2]) && tv[1] != tv[2]) by {
        reveal_strlit("anonaddy.me");
        reveal_strlit("armyspy.com");
        reveal_with_fuel(text::seq_le, 24);
        assert(tv[1] == "anonaddy.me"@);
        assert(tv[2] == "armyspy.com"@);
    }
    assert(text::seq_le(tv[2], tv[3]) && tv[2] != tv[3]) by {
        reveal_strlit("armyspy.com");
        reveal_strlit("cuvox.de");
        reveal_with_fuel(text::seq_le, 24);
        assert(tv[2] == "armyspy.com"@);
        assert(tv[3] == "cuvox.de"@);
    }
    assert(text::seq_le(tv[3], tv[4]) && tv[3] != tv[4]) by {
        reveal_strlit("cuvox.de");
        reveal_strlit("dayrep.com");
        reveal_with_fuel(text::seq_le, 24);
        assert(tv[3] == "cuvox.de"@);
        assert(tv[4] == "dayrep.com"@);
    }
    assert(text::seq_le(tv[4], tv[5]) && tv[4] != tv[5]) by {
        reveal_strlit("dayrep.com");
        reveal_strlit("deadaddress.com");
        reveal_with_fuel(text::seq_le, 24);
        assert(tv[4] == "dayrep.com"@);
        assert(tv[5] == "deadaddress.com"@);
    }
    assert(text::seq_le(tv[5], tv[6]) && tv[5] != tv[6]) by {
        reveal_strlit("deadaddress.com");
        reveal_strlit("dispostable.com");
        reveal_with_fuel(text::seq_le, 24);
        assert(tv[5] == "deadaddress.com"@);
        assert(tv[6] == "dispostable.com"@);
    }
}

/// Entries 6 to 12 of the built-in list each come strictly before the next.
#[verifier::spinoff_prover]
proof fn lemma_builtin_ascending_1()
    ensures
        text::seq_le(text::table_view(BUILTIN_DISPOSABLE_DOMAINS)[6], text::table_view(BUILTIN_DISPOSABLE_DOMAINS)[7]) && text::table_view(BUILTIN_DISPOSABLE_DOMAINS)[6] != text::table_view(BUILTIN_DISPOSABLE_DOMAINS)[7],
        text::seq_le(text::table_view(BUILTIN_DISPOSABLE_DOMAINS)[7], text::table_view(BUILTIN_DISPOSABLE_DOMAINS)[8]) && text::table_view(BUILTIN_DISPOSABLE_DOMAINS)[7] != text::table_view(BUILTIN_DISPOSABLE_DOMAINS)[8],
        text::seq_le(text::table_view(BUILTIN_DISPOSABLE_DOMAINS)[8], text::table_view(BUILTIN_DISPOSABLE_DOMAINS)[9]) && text::table_view(BUILTIN_DISPOSABLE_DOMAINS)[8] != text::table_view(BUILTIN_DISPOSABLE_DOMAINS)[9],
        text::seq_le(text::table_view(BUILTIN_DISPOSABLE_DOMAINS)[9], text::table_view(BUILTIN_DISPOSABLE_DOMAINS)[10]) && text::table_view(BUILTIN_DISPOSABLE_DOMAINS)[9] != text::table_view(BUILTIN_DISPOSABLE_DOMAINS)[10],
        text::seq_le(text::table_view(BUILTIN_DISPOSABLE_DOMAINS)[10], text::table_view(BUILTIN_DISPOSABLE_DOMAINS)[11]) && text::table_view(BUILTIN_DISPOSABLE_DOMAINS)[10] != text::table_view(BUILTIN_DISPOSABLE_DOMAINS)[11],
        text::seq_le(text::table_view(BUILTIN_DISPOSABLE_DOMAINS)[11], text::table_view(BUILTIN_DISPOSABLE_DOMAINS)[12]) && text::table_view(BUILTIN_DISPOSABLE_DOMAINS)[11] != text::table_view(BUILTIN_DISPOSABLE_DOMAINS)[12],
{
    let tv = text::table_view(BUILTIN_DISPOSABLE_DOMAINS);
    assert(text::seq_le(tv[6], tv[7]) && tv[6] != tv[7]) by {
        reveal_strlit("dispostable.com");
        reveal_strlit("einrot.com");
        reveal_with_fuel(text::seq_le, 24);
        assert(tv[6] == "dispostable.com"@);
        assert(tv[7] == "einrot.com"@);
    }
    assert(text::seq_le(tv[7], tv[8]) && tv[7] != tv[8]) by {
        reveal_strlit("einrot.com");
        reveal_strlit("fakeinbox.com");
        reveal_with_fuel(text::seq_le, 24);
        assert(tv[7] == "einrot.com"@);
        assert(tv[8] == "fakeinbox.com"@);
    }
    assert(text::seq_le(tv[8], tv[9]) && tv[8] != tv[9]) by {
        reveal_strlit("fakeinbox.com");
        reveal_strlit("fleckens.hu");
        reveal_with_fuel(text::seq_le, 24);
        assert(tv[8] == "fakeinbox.com"@);
        assert(tv[9] == "fleckens.hu"@);
    }
    assert(text::seq_le(tv[9], tv[10]) && tv[9] != tv[10]) by {
        reveal_strlit("fleckens.hu");
        reveal_strlit("getairmail.com");
        reveal_with_fuel(text::seq_le, 24);
        assert(tv[9] == "fleckens.hu"@);
        assert(tv[10] == "getairmail.com"@);
    }
    assert(text::seq_le(tv[10], tv[11]) && tv[10] != tv[11]) by {
        reveal_strlit("getairmail.com");
        reveal_strlit("guerrillamail.biz");
        reveal_with_fuel(text::seq_le, 24);
        assert(tv[10] == "getairmail.com"@);
        assert(tv[11] == "guerrillamail.biz"@);
    }
    assert(text::seq_le(tv[11], tv[12]) && tv[11] != tv[12]) by {
        reveal_strlit("guerrillamail.biz");
        reveal_strlit("guerrillamail.com");
        reveal_with_fuel(text::seq_le, 24);
        assert(tv[11] == "guerrillamail.biz"@);
        assert(tv[12] == "guerrillamail.com"@);
    }
}

/// Entries 12 to 18 of the built-in list each come strictly before the next.
#[verifier::spinoff_prover]
proof fn lemma_builtin_ascending_2()
    ensures
        text::seq_le(text::table_view(BUILTIN_DISPOSABLE_DOMAINS)[12], text::table_view(BUILTIN_DISPOSABLE_DOMAINS)[13]) && text::table_view(BUILTIN_DISPOSABLE_DOMAINS)[12] != text::table_view(BUILTIN_DISPOSABLE_DOMAINS)[13],
        text::seq_le(text::table_view(BUILTIN_DISPOSABLE_DOMAINS)[13], text::table_view(BUILTIN_DISPOSABLE_DOMAINS)[14]) && text::table_view(BUILTIN_DISPOSABLE_DOMAINS)[13] != text::table_view(BUILTIN_DISPOSABLE_DOMAINS)[14],
        text::seq_le(text::table_view(BUILTIN_DISPOSABLE_DOMAINS)[14], text::table_view(BUILTIN_DISPOSABLE_DOMAINS)[15]) && text::table_view(BUILTIN_DISPOSABLE_DOMAINS)[14] != text::table_view(BUILTIN_DISPOSABLE_DOMAINS)[15],
        text::seq_le(text::table_view(BUILTIN_DISPOSABLE_DOMAINS)[15], text::table_view(BUILTIN_DISPOSABLE_DOMAINS)[16]) && text::table_view(BUILTIN_DISPOSABLE_DOMAINS)[15] != text::table_view(BUILTIN_DISPOSABLE_DOMAINS)[16],
        text::seq_le(text::table_view(BUILTIN_DISPOSABLE_DOMAINS)[16], text::table_view(BUILTIN_DISPOSABLE_DOMAINS)[17]) && text::table_view(BUILTIN_DISPOSABLE_DOMAINS)[16] != text::table_view(BUILTIN_DISPOSABLE_DOMAINS)[17],
        text::seq_le(text::table_view(BUILTIN_DISPOSABLE_DOMAINS)[17], text::table_view(BUILTIN_DISPOSABLE_DOMAINS)[18]) && text::table_view(BUILTIN_DISPOSABLE_DOMAINS)[17] != text::table_view(BUILTIN_DISPOSABLE_DOMAINS)[18],
{
    let tv = text::table_view(BUILTIN_DISPOSABLE_DOMAINS);
    assert(text::seq_le(tv[12], tv[13]) && tv[12] != tv[13]) by {
        reveal_strlit("guerrillamail.com");
        reveal_strlit("guerrillamail.de");
        reveal_with_fuel(text::seq_le, 24);
        assert(tv[12] == "guerrillamail.com"@);
        assert(tv[13] == "guerrillamail.de"@);
    }
    assert(text::seq_le(tv[13], tv[14]) && tv[13] != tv[14]) by {
        reveal_strlit("guerrillamail.de");
        reveal_strlit("guerrillamail.info");
        reveal_with_fuel(text::seq_le, 24);
        assert(tv[13] == "guerrillamail.de"@);
        assert(tv[14] == "guerrillamail.info"@);
    }
    assert(text::seq_le(tv[14], tv[15]) && tv[14] != tv[15]) by {
        reveal_strlit("guerrillamail.info");
        reveal_strlit("guerrillamail.net");
        reveal_with_fuel(text::seq_le, 24);
        assert(tv[14] == "guerrillamail.info"@);
        assert(tv[15] == "guerrillamail.net"@);
    }
    assert(text::seq_le(tv[15], tv[16]) && tv[15] != tv[16]) by {
        reveal_strlit("guerrillamail.net");
        reveal_strlit("guerrillamail.org");
        reveal_with_fuel(text::seq_le, 24);
        assert(tv[15] == "guerrillamail.net"@);
        assert(tv[16] == "guerrillamail.org"@);
    }
    assert(text::seq_le(tv[16], tv[17]) && tv[16] != tv[17]) by {
        reveal_strlit("guerrillamail.org");
        reveal_strlit("guerrillamailblock.com");
        reveal_with_fuel(text::seq_le, 24);
        assert(tv[16] == "guerrillamail.org"@);
        assert(tv[17] == "guerrillamailblock.com"@);
    }
    assert(text::seq_le(tv[17], tv[18]) && tv[17] != tv[18]) by {
        reveal_strlit("guerrillamailblock.com");
        reveal_strlit("harakirimail.com");
        reveal_with_fuel(text::seq_le, 24);
        assert(tv[17] == "guerrillamailblock.com"@);
        assert(tv[18] == "harakirimail.com"@);
    }
}

/// Entries 18 to 24 of the built-in list each come strictly before the next.
#[verifier::spinoff_prover]
proof fn lemma_builtin_ascending_3()
    ensures
        text::seq_le(text::table_view(BUILTIN_DISPOSABLE_DOMAINS)[18], text::table_view(BUILTIN_DISPOSABLE_DOMAINS)[19]) && text::table_view(BUILTIN_DISPOSABLE_DOMAINS)[18] != text::table_view(BUILTIN_DISPOSABLE_DOMAINS)[19],
        text::seq_le(text::table_view(BUILTIN_DISPOSABLE_DOMAINS)[19], text::table_view(BUILTIN_DISPOSABLE_DOMAINS)[20]) && text::table_view(BUILTIN_DISPOSABLE_DOMAINS)[19] != text::table_view(BUILTIN_DISPOSABLE_DOMAINS)[20],
        text::seq_le(text::table_view(BUILTIN_DISPOSABLE_DOMAINS)[20], text::table_view(BUILTIN_DISPOSABLE_DOMAINS)[21]) && text::table_view(BUILTIN_DISPOSABLE_DOMAINS)[20] != text::table_view(BUILTIN_DISPOSABLE_DOMAINS)[21],
        text::seq_le(text::table_view(BUILTIN_DISPOSABLE_DOMAINS)[21], text::table_view(BUILTIN_DISPOSABLE_DOMAINS)[22]) && text::table_view(BUILTIN_DISPOSABLE_DOMAINS)[21] != text::table_view(BUILTIN_DISPOSABLE_DOMAINS)[22],
        text::seq_le(text::table_view(BUILTIN_DISPOSABLE_DOMAINS)[22], text::table_view(BUILTIN_DISPOSABLE_DOMAINS)[23]) && text::table_view(BUILTIN_DISPOSABLE_DOMAINS)[22] != text::table_view(BUILTIN_DISPOSABLE_DOMAINS)[23],
        text::seq_le(text::table_view(BUILTIN_DISPOSABLE_DOMAINS)[23], text::table_view(BUILTIN_DISPOSABLE_DOMAINS)[24]) && text::table_view(BUILTIN_DISPOSABLE_DOMAINS)[23] != text::table_view(BUILTIN_DISPOSABLE_DOMAINS)[24],
{
    let tv = text::table_view(BUILTIN_DISPOSABLE_DOMAINS);
    assert(text::seq_le(tv[18], tv[19]) && tv[18] != tv[19]) by {
        reveal_strlit("harakirimail.com");
        reveal_strlit("inboxbear.com");
        reveal_with_fuel(text::seq_le, 24);
        assert(tv[18] == "harakirimail.com"@);
        assert(tv[19] == "inboxbear.com"@);
    }
    assert(text::seq_le(tv[19], tv[20]) && tv[19] != tv[20]) by {
        reveal_strlit("inboxbear.com");
        reveal_strlit("jetable.org");
        reveal_with_fuel(text::seq_le, 24);
        assert(tv[19] == "inboxbear.com"@);
        assert(tv[20] == "jetable.org"@);
    }
    assert(text::seq_le(tv[20], tv[21]) && tv[20] != tv[21]) by {
        reveal_strlit("jetable.org");
        reveal_strlit("mailcatch.com");
        reveal_with_fuel(text::seq_le, 24);
        assert(tv[20] == "jetable.org"@);
        assert(tv[21] == "mailcatch.com"@);
    }
    assert(text::seq_le(tv[21], tv[22]) && tv[21] != tv[22]) by {
        reveal_strlit("mailcatch.com");
        reveal_strlit("maildrop.cc");
        reveal_with_fuel(text::seq_le, 24);
        assert(tv[21] == "mailcatch.com"@);
        assert(tv[22] == "maildrop.cc"@);
    }
    assert(text::seq_le(tv[22], tv[23]) && tv[22] != tv[23]) by {
        reveal_strlit("maildrop.cc");
        reveal_strlit("mailforspam.com");
        reveal_with_fuel(text::seq_le, 24);
        assert(tv[22] == "maildrop.cc"@);
        assert(tv[23] == "mailforspam.com"@);
    }
    assert(text::seq_le(tv[23], tv[24]) && tv[23] != tv[24]) by {
        reveal_strlit("mailforspam.com");
        reveal_strlit("mailinator.com");
        reveal_with_fuel(text::seq_le, 24);
        assert(tv[23] == "mailforspam.com"@);
        assert(tv[24] == "mailinator.com"@);
    }
}

/// Entries 24 to 30 of the built-in list each come strictly before the next.
#[verifier::spinoff_prover]
proof fn lemma_builtin_ascending_4()
    ensures
        text::seq_le(text::table_view(BUILTIN_DISPOSABLE_DOMAINS)[24], text::table_view(BUILTIN_DISPOSABLE_DOMAINS)[25]) && text::table_view(BUILTIN_DISPOSABLE_DOMAINS)[24] != text::table_view(BUILTIN_DISPOSABLE_DOMAINS)[25],
        text::seq_le(text::table_view(BUILTIN_DISPOSABLE_DOMAINS)[25], text::table_view(BUILTIN_DISPOSABLE_DOMAINS)[26]) && text::table_view(BUILTIN_DISPOSABLE_DOMAINS)[25] != text::table_view(BUILTIN_DISPOSABLE_DOMAINS)[26],
        text::seq_le(text::table_view(BUILTIN_DISPOSABLE_DOMAINS)[26], text::table_view(BUILTIN_DISPOSABLE_DOMAINS)[27]) && text::table_view(BUILTIN_DISPOSABLE_DOMAINS)[26] != text::table_view(BUILTIN_DISPOSABLE_DOMAINS)[27],
        text::seq_le(text::table_view(BUILTIN_DISPOSABLE_DOMAINS)[27], text::table_view(BUILTIN_DISPOSABLE_DOMAINS)[28]) && text::table_view(BUILTIN_DISPOSABLE_DOMAINS)[27] != text::table_view(BUILTIN_DISPOSABLE_DOMAINS)[28],
        text::seq_le(text::table_view(BUILTIN_DISPOSABLE_DOMAINS)[28], text::table_view(BUILTIN_DISPOSABLE_DOMAINS)[29]) && text::table_view(BUILTIN_DISPOSABLE_DOMAINS)[28] != text::table_view(BUILTIN_DISPOSABLE_DOMAINS)[29],
        text::seq_le(text::table_view(BUILTIN_DISPOSABLE_DOMAINS)[29], text::table_view(BUILTIN_DISPOSABLE_DOMAINS)[30]) && text::table_view(BUILTIN_DISPOSABLE_DOMAINS)[29] != text::table_view(BUILTIN_DISPOSABLE_DOMAINS)[30],
{
    let tv = text::table_view(BUILTIN_DISPOSABLE_DOMAINS);
    assert(text::seq_le(tv[24], tv[25]) && tv[24] != tv[25]) by {
        reveal_strlit("mailinator.com");
        reveal_strlit("mailnesia.com");
        reveal_with_fuel(text::seq_le, 24);
        assert(tv[24] == "mailinator.com"@);
        assert(tv[25] == "mailnesia.com"@);
    }
    assert(text::seq_le(tv[25], tv[26]) && tv[25] != tv[26]) by {
        reveal_strlit("mailnesia.com");
        reveal_strlit("mintemail.com");
        reveal_with_fuel(text::seq_le, 24);
        assert(tv[25] == "mailnesia.com"@);
        assert(tv[26] == "mintemail.com"@);
    }
    assert(text::seq_le(tv[26], tv[27]) && tv[26] != tv[27]) by {
        reveal_strlit("mintemail.com");
        reveal_strlit("mohmal.com");
        reveal_with_fuel(text::seq_le, 24);
        assert(tv[26] == "mintemail.com"@);
        assert(tv[27] == "mohmal.com"@);
    }
    assert(text::seq_le(tv[27], tv[28]) && tv[27] != tv[28]) by {
        reveal_strlit("mohmal.com");
        reveal_strlit("mytrashmail.com");
        reveal_with_fuel(text::seq_le, 24);
        assert(tv[27] == "mohmal.com"@);
        assert(tv[28] == "mytrashmail.com"@);
    }
    assert(text::seq_le(tv[28], tv[29]) && tv[28] != tv[29]) by {
        reveal_strlit("mytrashmail.com");
        reveal_strlit("nowmymail.com");
        reveal_with_fuel(text::seq_le, 24);
        assert(tv[28] == "mytrashmail.com"@);
        assert(tv[29] == "nowmymail.com"@);
    }
    assert(text::seq_le(tv[29], tv[30]) && tv[29] != tv[30]) by {
        reveal_strlit("nowmymail.com");
        reveal_strlit("rhyta.com");
        reveal_with_fuel(text::seq_le, 24);
        assert(tv[29] == "nowmymail.com"@);
        assert(tv[30] == "rhyta.com"@);
    }
}

/// Entries 30 to 36 of the built-in list each come strictly before the next.
#[verifier::spinoff_prover]
proof fn lemma_builtin_ascending_5()
    ensures
        text::seq_le(text::table_view(BUILTIN_DISPOSABLE_DOMAINS)[30], text::table_view(BUILTIN_DISPOSABLE_DOMAINS)[31]) && text::table_view(BUILTIN_DISPOSABLE_DOMAINS)[30] != text::table_view(BUILTIN_DISPOSABLE_DOMAINS)[31],
        text::seq_le(text::table_view(BUILTIN_DISPOSABLE_DOMAINS)[31], text::table_view(BUILTIN_DISPOSABLE_DOMAINS)[32]) && text::table_view(BUILTIN_DISPOSABLE_DOMAINS)[31] != text::table_view(BUILTIN_DISPOSABLE_DOMAINS)[32],
        text::seq_le(text::table_view(BUILTIN_DISPOSABLE_DOMAINS)[32], text::table_view(BUILTIN_DISPOSABLE_DOMAINS)[33]) && text::table_view(BUILTIN_DISPOSABLE_DOMAINS)[32] != text::table_view(BUILTIN_DISPOSABLE_DOMAINS)[33],
        text::seq_le(text::table_view(BUILTIN_DISPOSABLE_DOMAINS)[33], text::table_view(BUILTIN_DISPOSABLE_DOMAINS)[34]) && text::table_view(BUILTIN_DISPOSABLE_DOMAINS)[33] != text::table_view(BUILTIN_DISPOSABLE_DOMAINS)[34],
        text::seq_le(text::table_view(BUILTIN_DISPOSABLE_DOMAINS)[34], text::table_view(BUILTIN_DISPOSABLE_DOMAINS)[35]) && text::table_view(BUILTIN_DISPOSABLE_DOMAINS)[34] != text::table_view(BUILTIN_DISPOSABLE_DOMAINS)[35],
        text::seq_le(text::table_view(BUILTIN_DISPOSABLE_DOMAINS)[35], text::table_view(BUILTIN_DISPOSABLE_DOMAINS)[36]) && text::table_view(BUILTIN_DISPOSABLE_DOMAINS)[35] != text::table_view(BUILTIN_DISPOSABLE_DOMAINS)[36],
{
    let tv = text::table_view(BUILTIN_DISPOSABLE_DOMAINS);
    assert(text::seq_le(tv[30], tv[31]) && tv[30] != tv[31]) by {
        reveal_strlit("rhyta.com");
        reveal_strlit("sharklasers.com");
        reveal_with_fuel(text::seq_le, 24);
        assert(tv[30] == "rhyta.com"@);
        assert(tv[31] == "sharklasers.com"@);
    }
    assert(text::seq_le(tv[31], tv[32]) && tv[31] != tv[32]) by {
        reveal_strlit("sharklasers.com");
        reveal_strlit("spam4.me");
        reveal_with_fuel(text::seq_le, 24);
        assert(tv[31] == "sharklasers.com"@);
        assert(tv[32] == "spam4.me"@);
    }
    assert(text::seq_le(tv[32], tv[33]) && tv[32] != tv[33]) by {
        reveal_strlit("spam4.me");
        reveal_strlit("spambox.us");
        reveal_with_fuel(text::seq_le, 24);
        assert(tv[32] == "spam4.me"@);
        assert(tv[33] == "spambox.us"@);
    }
    assert(text::seq_le(tv[33], tv[34]) && tv[33] != tv[34]) by {
        reveal_strlit("spambox.us");
        reveal_strlit("spamgourmet.com");
        reveal_with_fuel(text::seq_le, 24);
        assert(tv[33] == "spambox.us"@);
        assert(tv[34] == "spamgourmet.com"@);
    }
    assert(text::seq_le(tv[34], tv[35]) && tv[34] != tv[35]) by {
        reveal_strlit("spamgourmet.com");
        reveal_strlit("spamherelots.com");
        reveal_with_fuel(text::seq_le, 24);
        assert(tv[34] == "spamgourmet.com"@);
        assert(tv[35] == "spamherelots.com"@);
    }
    assert(text::seq_le(tv[35], tv[36]) && tv[35] != tv[36]) by {
        reveal_strlit("spamherelots.com");
        reveal_strlit("superrito.com");
        reveal_with_fuel(text::seq_le, 24);
        assert(tv[35] == "spamherelots.com"@);
        assert(tv[36] == "superrito.com"@);
    }
}

/// Entries 36 to 42 of the built-in list each come strictly before the next.
#[verifier::spinoff_prover]
proof fn lemma_builtin_ascending_6()
    ensures
        text::seq_le(text::table_view(BUILTIN_DISPOSABLE_DOMAINS)[36], text::table_view(BUILTIN_DISPOSABLE_DOMAINS)[37]) && text::table_view(BUILTIN_DISPOSABLE_DOMAINS)[36] != text::table_view(BUILTIN_DISPOSABLE_DOMAINS)[37],
        text::seq_le(text::table_view(BUILTIN_DISPOSABLE_DOMAINS)[37], text::table_view(BUILTIN_DISPOSABLE_DOMAINS)[38]) && text::table_view(BUILTIN_DISPOSABLE_DOMAINS)[37] != text::table_view(BUILTIN_DISPOSABLE_DOMAINS)[38],
        text::seq_le(text::table_view(BUILTIN_DISPOSABLE_DOMAINS)[38], text::table_view(BUILTIN_DISPOSABLE_DOMAINS)[39]) && text::table_view(BUILTIN_DISPOSABLE_DOMAINS)[38] != text::table_view(BUILTIN_DISPOSABLE_DOMAINS)[39],
        text::seq_le(text::table_view(BUILTIN_DISPOSABLE_DOMAINS)[39], text::table_view(BUILTIN_DISPOSABLE_DOMAINS)[40]) && text::table_view(BUILTIN_DISPOSABLE_DOMAINS)[39] != text::table_view(BUILTIN_DISPOSABLE_DOMAINS)[40],
        text::seq_le(text::table_view(BUILTIN_DISPOSABLE_DOMAINS)[40], text::table_view(BUILTIN_DISPOSABLE_DOMAINS)[41]) && text::table_view(BUILTIN_DISPOSABLE_DOMAINS)[40] != text::table_view(BUILTIN_DISPOSABLE_DOMAINS)[41],
        text::seq_le(text::table_view(BUILTIN_DISPOSABLE_DOMAINS)[41], text::table_view(BUILTIN_DISPOSABLE_DOMAINS)[42]) && text::table_view(BUILTIN_DISPOSABLE_DOMAINS)[41] != text::table_view(BUILTIN_DISPOSABLE_DOMAINS)[42],
{
    let tv = text::table_view(BUILTIN_DISPOSABLE_DOMAINS);
    assert(text::seq_le(tv[36], tv[37]) && tv[36] != tv[37]) by {
        reveal_strlit("superrito.com");
        reveal_strlit("teleworm.us");
        reveal_with_fuel(text::seq_le, 24);
        assert(tv[36] == "superrito.com"@);
        assert(tv[37] == "teleworm.us"@);
    }
    assert(text::seq_le(tv[37], tv[38]) && tv[37] != tv[38]) by {
        reveal_strlit("teleworm.us");
        reveal_strlit("temp-mail.org");
        reveal_with_fuel(text::seq_le, 24);
        assert(tv[37] == "teleworm.us"@);
        assert(tv[38] == "temp-mail.org"@);
    }
    assert(text::seq_le(tv[38], tv[39]) && tv[38] != tv[39]) by {
        reveal_strlit("temp-mail.org");
        reveal_strlit("tempail.com");
        reveal_with_fuel(text::seq_le, 24);
        assert(tv[38] == "temp-mail.org"@);
        assert(tv[39] == "tempail.com"@);
    }
    assert(text::seq_le(tv[39], tv[40]) && tv[39] != tv[40]) by {
        reveal_strlit("tempail.com");
        reveal_strlit("tempinbox.com");
        reveal_with_fuel(text::seq_le, 24);
        assert(tv[39] == "tempail.com"@);
        assert(tv[40] == "tempinbox.com"@);
    }
    assert(text::seq_le(tv[40], tv[41]) && tv[40] != tv[41]) by {
        reveal_strlit("tempinbox.com");
        reveal_strlit("tempmail.com");
        reveal_with_fuel(text::seq_le, 24);
        assert(tv[40] == "tempinbox.com"@);
        assert(tv[41] == "tempmail.com"@);
    }
    assert(text::seq_le(tv[41], tv[42]) && tv[41] != tv[42]) by {
        reveal_strlit("tempmail.com");
        reveal_strlit("tempmail.plus");
        reveal_with_fuel(text::seq_le, 24);
        assert(tv[41] == "tempmail.com"@);
        assert(tv[42] == "tempmail.plus"@);
    }
}

/// Entries 42 to 48 of the built-in list each come strictly before the next.
#[verifier::spinoff_prover]
proof fn lemma_builtin_ascending_7()
    ensures
        text::seq_le(text::table_view(BUILTIN_DISPOSABLE_DOMAINS)[42], text::table_view(BUILTIN_DISPOSABLE_DOMAINS)[43]) && text::table_view(BUILTIN_DISPOSABLE_DOMAINS)[42] != text::table_view(BUILTIN_DISPOSABLE_DOMAINS)[43],
        text::seq_le(text::table_view(BUILTIN_DISPOSABLE_DOMAINS)[43], text::table_view(BUILTIN_DISPOSABLE_DOMAINS)[44]) && text::table_view(BUILTIN_DISPOSABLE_DOMAINS)[43] != text::table_view(BUILTIN_DISPOSABLE_DOMAINS)[44],
        text::seq_le(text::table_view(BUILTIN_DISPOSABLE_DOMAINS)[44], text::table_view(BUILTIN_DISPOSABLE_DOMAINS)[45]) && text::table_view(BUILTIN_DISPOSABLE_DOMAINS)[44] != text::table_view(BUILTIN_DISPOSABLE_DOMAINS)[45],
        text::seq_le(text::table_view(BUILTIN_DISPOSABLE_DOMAINS)[45], text::table_view(BUILTIN_DISPOSABLE_DOMAINS)[46]) && text::table_view(BUILTIN_DISPOSABLE_DOMAINS)[45] != text::table_view(BUILTIN_DISPOSABLE_DOMAINS)[46],
        text::seq_le(text::table_view(BUILTIN_DISPOSABLE_DOMAINS)[46], text::table_view(BUILTIN_DISPOSABLE_DOMAINS)[47]) && text::table_view(BUILTIN_DISPOSABLE_DOMAINS)[46] != text::table_view(BUILTIN_DISPOSABLE_DOMAINS)[47],
        text::seq_le(text::table_view(BUILTIN_DISPOSABLE_DOMAINS)[47], text::table_view(BUILTIN_DISPOSABLE_DOMAINS)[48]) && text::table_view(BUILTIN_DISPOSABLE_DOMAINS)[47] != text::table_view(BUILTIN_DISPOSABLE_DOMAINS)[48],
{
    let tv = text::table_view(BUILTIN_DISPOSABLE_DOMAINS);
    assert(text::seq_le(tv[42], tv[43]) && tv[42] != tv[43]) by {
        reveal_strlit("tempmail.plus");
        reveal_strlit("tempmailaddress.com");
        reveal_with_fuel(text::seq_le, 24);
        assert(tv[42] == "tempmail.plus"@);
        assert(tv[43] == "tempmailaddress.com"@);
    }
    assert(text::seq_le(tv[43], tv[44]) && tv[43] != tv[44]) by {
        reveal_strlit("tempmailaddress.com");
        reveal_strlit("tempmailo.com");
        reveal_with_fuel(text::seq_le, 24);
        assert(tv[43] == "tempmailaddress.com"@);
        assert(tv[44] == "tempmailo.com"@);
    }
    assert(text::seq_le(tv[44], tv[45]) && tv[44] != tv[45]) by {
        reveal_strlit("tempmailo.com");
        reveal_strlit("throwawaymail.com");
        reveal_with_fuel(text::seq_le, 24);
        assert(tv[44] == "tempmailo.com"@);
        assert(tv[45] == "throwawaymail.com"@);
    }
    assert(text::seq_le(tv[45], tv[46]) && tv[45] != tv[46]) by {
        reveal_strlit("throwawaymail.com");
        reveal_strlit("trashmail.com");
        reveal_with_fuel(text::seq_le, 24);
        assert(tv[45] == "throwawaymail.com"@);
        assert(tv[46] == "trashmail.com"@);
    }
    assert(text::seq_le(tv[46], tv[47]) && tv[46] != tv[47]) by {
        reveal_strlit("trashmail.com");
        reveal_strlit("trashmail.de");
        reveal_with_fuel(text::seq_le, 24);
        assert(tv[46] == "trashmail.com"@);
        assert(tv[47] == "trashmail.de"@);
    }
    assert(text::seq_le(tv[47], tv[48]) && tv[47] != tv[48]) by {
        reveal_strlit("trashmail.de");
        reveal_strlit("tutanota.com");
        reveal_with_fuel(text::seq_le, 24);
        assert(tv[47] == "trashmail.de"@);
        assert(tv[48] == "tutanota.com"@);
    }
}

/// Entries 48 to 51 of the built-in list each come strictly before the next.
#[verifier::spinoff_prover]
proof fn lemma_builtin_ascending_8()
    ensures
        text::seq_le(text::table_view(BUILTIN_DISPOSABLE_DOMAINS)[48], text::table_view(BUILTIN_DISPOSABLE_DOMAINS)[49]) && text::table_view(BUILTIN_DISPOSABLE_DOMAINS)[48] != text::table_view(BUILTIN_DISPOSABLE_DOMAINS)[49],
        text::seq_le(text::table_view(BUILTIN_DISPOSABLE_DOMAINS)[49], text::table_view(BUILTIN_DISPOSABLE_DOMAINS)[50]) && text::table_view(BUILTIN_DISPOSABLE_DOMAINS)[49] != text::table_view(BUILTIN_DISPOSABLE_DOMAINS)[50],
        text::seq_le(text::table_view(BUILTIN_DISPOSABLE_DOMAINS)[50], text::table_view(BUILTIN_DISPOSABLE_DOMAINS)[51]) && text::table_view(BUILTIN_DISPOSABLE_DOMAINS)[50] != text::table_view(BUILTIN_DISPOSABLE_DOMAINS)[51],
{
    let tv = text::table_view(BUILTIN_DISPOSABLE_DOMAINS);
    assert(text::seq_le(tv[48], tv[49]) && tv[48] != tv[49]) by {
        reveal_strlit("tutanota.com");
        reveal_strlit("yopmail.com");
        reveal_with_fuel(text::seq_le, 24);
        assert(tv[48] == "tutanota.com"@);
        assert(tv[49] == "yopmail.com"@);
    }
    assert(text::seq_le(tv[49], tv[50]) && tv[49] != tv[50]) by {
        reveal_strlit("yopmail.com");
        reveal_strlit("yopmail.fr");
        reveal_with_fuel(text::seq_le, 24);
        assert(tv[49] == "yopmail.com"@);
        assert(tv[50] == "yopmail.fr"@);
    }
    assert(text::seq_le(tv[50], tv[51]) && tv[50] != tv[51]) by {
        reveal_strlit("yopmail.fr");
        reveal_strlit("yopmail.net");
        reveal_with_fuel(text::seq_le, 24);
        assert(tv[50] == "yopmail.fr"@);
        assert(tv[51] == "yopmail.net"@);
    }
}

/// The built-in list is in strictly ascending order.
proof fn lemma_builtin_strictly_ascending()
    ensures
        forall|k: int| 0 <= k < 51 ==> text::seq_le(#[trigger] text::table_view(BUILTIN_DISPOSABLE_DOMAINS)[k], text::table_view(BUILTIN_DISPOSABLE_DOMAINS)[k + 1]) && text::table_view(BUILTIN_DISPOSABLE_DOMAINS)[k] != text::table_view(BUILTIN_DISPOSABLE_DOMAINS)[k + 1],
{
    let tv = text::table_view(BUILTIN_DISPOSABLE_DOMAINS);
    lemma_builtin_ascending_0();
    lemma_builtin_ascending_1();
    lemma_builtin_ascending_2();
    lemma_builtin_ascending_3();
    lemma_builtin_ascending_4();
    lemma_builtin_ascending_5();
    lemma_builtin_ascending_6();
    lemma_builtin_ascending_7();
    lemma_builtin_ascending_8();
    assert forall|k: int| 0 <= k < 51 implies text::seq_le(#[trigger] tv[k], tv[k + 1]) && tv[k] != tv[k + 1] by {
        if k == 0 {} else if k == 1 {} else if k == 2 {} else if k == 3 {} else if k == 4 {} else if k == 5 {} else if k == 6 {} else if k == 7 {} else if k == 8 {} else if k == 9 {} else if k == 10 {} else if k == 11 {} else if k == 12 {} else if k == 13 {} else if k == 14 {} else if k == 15 {} else if k == 16 {} else if k == 17 {} else if k == 18 {} else if k == 19 {} else if k == 20 {} else if k == 21 {} else if k == 22 {} else if k == 23 {} else if k == 24 {} else if k == 25 {} else if k == 26 {} else if k == 27 {} else if k == 28 {} else if k == 29 {} else if k == 30 {} else if k == 31 {} else if k == 32 {} else if k == 33 {} else if k == 34 {} else if k == 35 {} else if k == 36 {} else if k == 37 {} else if k == 38 {} else if k == 39 {} else if k == 40 {} else if k == 41 {} else if k == 42 {} else if k == 43 {} else if k == 44 {} else if k == 45 {} else if k == 46 {} else if k == 47 {} else if k == 48 {} else if k == 49 {} else if k == 50 {}
    }
}

/// Entries `i` to `j` of a list where each entry comes before the next are
/// in ascending order.
proof fn lemma_chain_le(s: Seq<Seq<char>>, i: int, j: int)
    requires
        forall|k: int| 0 <= k < s.len() - 1 ==> text::seq_le(#[trigger] s[k], s[k + 1]),
        0 <= i <= j < s.len(),
    ensures
        text::seq_le(s[i], s[j]),
    decreases j - i,
{
    if i == j {
        text::lemma_seq_le_total(s[i], s[i]);
    } else {
        lemma_chain_le(s, i + 1, j);
        assert(text::seq_le(s[i], s[i + 1]));
        text::lemma_seq_le_trans(s[i], s[i + 1], s[j]);
    }
}

/// A list where every entry comes strictly before the next is sorted and
/// holds no entry twice.
proof fn lemma_strict_chain(s: Seq<Seq<char>>)
    requires
        forall|k: int| 0 <= k < s.len() - 1 ==> text::seq_le(#[trigger] s[k], s[k + 1]) && s[k] != s[k + 1],
    ensures
        text::sorted_strings(s),
        s.no_duplicates(),
{
    assert forall|i: int, j: int| 0 <= i < j < s.len() implies text::seq_le(#[trigger] s[i], #[trigger] s[j]) by {
        lemma_chain_le(s, i, j);
    }
    assert forall|i: int, j: int| 0 <= i < s.len() && 0 <= j < s.len() && i != j implies s[i] != s[j] by {
        let (a, b) = if i < j { (i, j) } else { (j, i) };
        assert(text::seq_le(s[a], s[a + 1]) && s[a] != s[a + 1]);
        lemma_chain_le(s, a + 1, b);
        if s[a] == s[b] {
            text::lemma_seq_le_total(s[a], s[a + 1]);
        }
    }
}

/// The built-in list is sorted (as a binary search over it requires), and
/// the built-in domain set holds exactly its entries: as many domains as the
/// list has entries, and a domain is in it exactly when `is_disposable` says
/// so.
pub proof fn lemma_builtin_matches_list(domain: Seq<char>)
    ensures
        text::sorted_strings(text::table_view(BUILTIN_DISPOSABLE_DOMAINS)),
        DisposableDomains::spec_normalised_set(text::table_view(BUILTIN_DISPOSABLE_DOMAINS)).len() == text::table_view(BUILTIN_DISPOSABLE_DOMAINS).len(),
        (normalise(domain).len() > 0 && DisposableDomains::spec_normalised_set(text::table_view(BUILTIN_DISPOSABLE_DOMAINS)).contains(normalise(domain)))
            == spec_is_disposable(domain),
{
    let tv = text::table_view(BUILTIN_DISPOSABLE_DOMAINS);
    lemma_builtin_entries_normal();
    lemma_builtin_strictly_ascending();
    lemma_strict_chain(tv);
    let ns = DisposableDomains::spec_normalised_set(tv);
    assert forall|d: Seq<char>| ns.contains(d) <==> tv.to_set().contains(d) by {
        if ns.contains(d) {
            let i = choose|i: int| 0 <= i < tv.len() && normalise(tv[i]) == d;
            assert(tv[i] == d);
            assert(tv.contains(d));
        }
        if tv.to_set().contains(d) {
            assert(tv.contains(d));
            let i = choose|i: int| 0 <= i < tv.len() && tv[i] == d;
            assert(normalise(tv[i]) == d && d.len() > 0);
        }
    }
    assert(ns =~= tv.to_set());
    tv.unique_seq_to_set();
}

/// Whether `domain` is on the built-in list (case-insensitive, white space ignored).
pub open spec fn spec_is_disposable(domain: Seq<char>) -> bool {
    let d = normalise(domain);
    d.len() > 0 && text::table_view(BUILTIN_DISPOSABLE_DOMAINS).contains(d)
}

/// The domain part of an e-mail address: everything after the last `@` of the
/// trimmed address, lowercased; none when the local part or the domain is empty
/// or there is no `@`.
pub open spec fn spec_extract_domain(email: Seq<char>) -> Option<Seq<char>> {
    let t = text::trim(email);
    match text::last_index_of(t, '@') {
        Some(at) => if at == 0 || at + 1 == t.len() {
            None
        } else {
            Some(text::lower(t.subrange(at + 1, t.len() as int)))
        },
        None => None,
    }
}

/// Returns true if `domain` is on the built-in disposable list.
pub fn is_disposable(domain: &str) -> (r: bool)
    ensures
        r == spec_is_disposable(domain@),
{
    let t = text::trimmed_chars(domain);
    let lower = text::lower_vec(&t);
    if lower.len() == 0 {
        return false;
    }
    text::table_contains(&BUILTIN_DISPOSABLE_DOMAINS, &lower)
}

/// Extracts the lowercase domain of an e-mail address.
pub fn extract_domain(email: &str) -> (r: Option<String>)
    ensures
        match spec_extract_domain(email@) {
            Some(d) => r is Some && r->0@ == d,
            None => r is None,
        },
{
    let t = text::trimmed_chars(email);
    let found = text::rfind_char(&t, '@');
    if found.is_none() {
        return None;
    }
    let at = found.unwrap();
    assert(text::last_index_of(t@, '@') == Some(at as int));
    assert(at < t.len());
    if at == 0 {
        return None;
    }
    if at + 1 == t.len() {
        return None;
    }
    let domain = text::slice_vec(&t, at + 1, t.len());
    let lower = text::lower_vec(&domain);
    let out = text::string_from(&lower);
    assert(out@ == text::lower(t@.subrange(at + 1, t@.len() as int)));
    Some(out)
}

/// A runtime-extensible set of disposable domains (normalised, non-empty).
pub struct DisposableDomains {
    entries: Vec<Vec<char>>,
}

impl DisposableDomains {
    /// The stored domains as character sequences.
    pub closed spec fn entries_view(&self) -> Seq<Seq<char>> {
        Seq::new(self.entries@.len(), |i: int| self.entries@[i]@)
    }

    /// The set of domains this value holds.
    pub closed spec fn view(&self) -> Set<Seq<char>> {
        self.entries_view().to_set()
    }

    #[verifier::type_invariant]
    closed spec fn inv(&self) -> bool {
        &&& self.entries_view().no_duplicates()
        &&& forall|i: int| 0 <= i < self.entries_view().len() ==> #[trigger] self.entries_view()[i].len() > 0
    }

    /// The set of the given domains, each normalised, with empty ones left out.
    pub open spec fn spec_normalised_set(items: Seq<Seq<char>>) -> Set<Seq<char>> {
        Set::new(|d: Seq<char>| d.len() > 0 && exists|i: int| 0 <= i < items.len() && normalise(items[i]) == d)
    }

    fn empty() -> (r: Self)
        ensures
            r.view() == Set::<Seq<char>>::empty(),
    {
        let r = DisposableDomains { entries: Vec::new() };
        assert(r.entries_view().to_set() =~= Set::<Seq<char>>::empty());
        r
    }

    fn find(&self, d: &[char]) -> (r: bool)
        ensures
            r == self.view().contains(d@),
    {
        let mut i: usize = 0;
        while i < self.entries.len()
            invariant
                i <= self.entries@.len(),
                forall|j: int| 0 <= j < i ==> self.entries_view()[j] != d@,
            decreases self.entries@.len() - i,
        {
            if text::chars_eq(&self.entries[i], d) {
                assert(self.entries_view()[i as int] == d@);
                assert(self.entries_view().contains(d@));
                return true;
            }
            i = i + 1;
        }
        assert(!self.entries_view().contains(d@));
        false
    }

    /// Adds one domain after normalising it; empty domains are ignored.
    pub fn insert(&mut self, s: &str)
        ensures
            final(self).view() == (if normalise(s@).len() > 0 {
                old(self).view().insert(normalise(s@))
            } else {
                old(self).view()
            }),
    {
        let t = text::trimmed_chars(s);
        let d = text::lower_vec(&t);
        if d.len() == 0 {
            return;
        }
        if self.find(&d) {
            proof {
                assert(old(self).view().insert(normalise(s@)) =~= old(self).view());
            }
            return;
        }
        proof {
            use_type_invariant(&*self);
        }
        let ghost before = self.entries_view();
        let mut entries: Vec<Vec<char>> = Vec::new();
        std::mem::swap(&mut entries, &mut self.entries);
        assert(Seq::new(entries@.len(), |i: int| entries@[i]@) == before);
        entries.push(d);
        proof {
            let after = Seq::new(entries@.len(), |i: int| entries@[i]@);
            assert(after =~= before.push(d@));
            before.lemma_push_to_set_commute(d@);
            assert forall|i: int, j: int| 0 <= i < after.len() && 0 <= j < after.len() && i != j
                implies after[i] != after[j] by {
                if i < before.len() && j < before.len() {
                    assert(after[i] == before[i] && after[j] == before[j]);
                } else if i < before.len() {
                    assert(before.contains(after[i]));
                } else {
                    assert(before.contains(after[j]));
                }
            }
            assert forall|i: int| 0 <= i < after.len() implies #[trigger] after[i].len() > 0 by {
                if i < before.len() {
                    assert(after[i] == before[i]);
                }
            }
        }
        self.entries = entries;
    }

    /// Built from the built-in list.
    pub fn builtin() -> (r: Self)
        ensures
            r.view() == Self::spec_normalised_set(text::table_view(BUILTIN_DISPOSABLE_DOMAINS)),
    {
        Self::from_iter(BUILTIN_DISPOSABLE_DOMAINS)
    }

    /// Built from the given domains, each trimmed and lowercased; empty ones are dropped.
    pub fn from_iter<const N: usize>(items: [&'static str; N]) -> (r: Self)
        ensures
            r.view() == Self::spec_normalised_set(text::table_view(items)),
    {
        let mut r = Self::empty();
        r.extend(items);
        assert(r.view() =~= Self::spec_normalised_set(text::table_view(items)));
        r
    }

    /// Adds the given domains, each trimmed and lowercased; empty ones are dropped.
    pub fn extend<const N: usize>(&mut self, items: [&'static str; N])
        ensures
            final(self).view() == old(self).view().union(Self::spec_normalised_set(text::table_view(items))),
    {
        let ghost start = self.view();
        let mut i: usize = 0;
        while i < N
            invariant
                i <= N,
                self.view() == start.union(Self::spec_normalised_set(text::table_view(items).take(i as int))),
            decreases N - i,
        {
            self.insert(items[i]);
            proof {
                let tv = text::table_view(items);
                assert(tv.take(i + 1) =~= tv.take(i as int).push(items@[i as int]@));
                assert(Self::spec_normalised_set(tv.take(i + 1)) =~= (if normalise(items@[i as int]@).len() > 0 {
                    Self::spec_normalised_set(tv.take(i as int)).insert(normalise(items@[i as int]@))
                } else {
                    Self::spec_normalised_set(tv.take(i as int))
                })) by {
                    let a = tv.take(i + 1);
                    let b = tv.take(i as int);
                    assert forall|d: Seq<char>| Self::spec_normalised_set(a).contains(d) implies
                        (if normalise(items@[i as int]@).len() > 0 {
                            Self::spec_normalised_set(b).insert(normalise(items@[i as int]@))
                        } else {
                            Self::spec_normalised_set(b)
                        }).contains(d) by {
                        let k = choose|k: int| 0 <= k < a.len() && normalise(a[k]) == d;
                        if k < i {
                            assert(a[k] == b[k]);
                        }
                    }
                    assert forall|d: Seq<char>| (if normalise(items@[i as int]@).len() > 0 {
                            Self::spec_normalised_set(b).insert(normalise(items@[i as int]@))
                        } else {
                            Self::spec_normalised_set(b)
                        }).contains(d) implies Self::spec_normalised_set(a).contains(d) by {
                        if Self::spec_normalised_set(b).contains(d) {
                            let k = choose|k: int| 0 <= k < b.len() && normalise(b[k]) == d;
                            assert(a[k] == b[k]);
                        } else {
                            assert(a[i as int] == items@[i as int]@);
                        }
                    }
                }
            }
            i = i + 1;
        }
        assert(text::table_view(items).take(N as int) =~= text::table_view(items));
    }

    /// Whether `domain` (trimmed, lowercased) is in the set.
    pub fn contains(&self, domain: &str) -> (r: bool)
        ensures
            r == (normalise(domain@).len() > 0 && self.view().contains(normalise(domain@))),
    {
        let t = text::trimmed_chars(domain);
        let d = text::lower_vec(&t);
        if d.len() == 0 {
            return false;
        }
        self.find(&d)
    }

    /// Whether the domain of `email` is in the set.
    pub fn contains_email_domain(&self, email: &str) -> (r: bool)
        ensures
            r == match spec_extract_domain(email@) {
                Some(d) => normalise(d).len() > 0 && self.view().contains(normalise(d)),
                None => false,
            },
    {
        match extract_domain(email) {
            Some(d) => self.contains(d.as_str()),
            None => false,
        }
    }

    /// Number of domains held.
    pub fn len(&self) -> (r: usize)
        ensures
            r == self.view().len(),
    {
        proof {
            use_type_invariant(self);
            self.entries_view().unique_seq_to_set();
        }
        self.entries.len()
    }

    /// Whether no domain is held.
    pub fn is_empty(&self) -> (r: bool)
        ensures
            r == (self.view().len() == 0),
    {
        self.len() == 0
    }
}

} // verus!
