use citeproc::lang::{IsoCountry, IsoLang, Lang, LocaleSource, UnknownAttributeValue};

#[test]
fn test_inline_iter() {
    let de_at = Lang::Iso(IsoLang::Deutsch, Some(IsoCountry::AT));
    let de = Lang::Iso(IsoLang::Deutsch, None);
    assert_eq!(de_at.inline_iter(), &[de_at, de]);
}

#[test]
fn test_file_iter() {
    let de_at = Lang::Iso(IsoLang::Deutsch, Some(IsoCountry::AT));
    let de_de = Lang::Iso(IsoLang::Deutsch, Some(IsoCountry::DE));
    let en_us = Lang::Iso(IsoLang::English, Some(IsoCountry::US));
    assert_eq!(de_at.file_iter(), &[de_at, de_de, en_us]);
}

#[test]
fn lang_from_str() {
    let de_at = Lang::Iso(IsoLang::Deutsch, Some(IsoCountry::AT));
    let de = Lang::Iso(IsoLang::Deutsch, None);
    let iana = Lang::Iana("Navajo".to_string());
    let unofficial = Lang::Unofficial("Newspeak".to_string());
    assert_eq!(Lang::from_str("de-AT"), Ok(de_at));
    assert_eq!(Lang::from_str("de"), Ok(de));
    assert_eq!(Lang::from_str("i-Navajo"), Ok(iana));
    assert_eq!(Lang::from_str("x-Newspeak"), Ok(unofficial));
}

#[test]
fn lang_from_str_three_letter_codes() {
    assert_eq!(Lang::from_str("eng"), Ok(Lang::Iso(IsoLang::English, None)));
    assert_eq!(
        Lang::from_str("deu-CH"),
        Ok(Lang::Iso(IsoLang::Deutsch, Some(IsoCountry::CH)))
    );
    assert_eq!(
        Lang::from_str("ko-KR"),
        Ok(Lang::Iso(
            IsoLang::Other("ko".to_string()),
            Some(IsoCountry::Other("KR".to_string()))
        ))
    );
}

#[test]
fn lang_from_str_rejects() {
    // the whole value must be read
    assert_eq!(Lang::from_str("de-AT-x"), Err(()));
    assert_eq!(Lang::from_str("english"), Err(()));
    assert_eq!(Lang::from_str("e"), Err(()));
    assert_eq!(Lang::from_str(""), Err(()));
    // an unofficial tag holds at most 8 characters
    assert_eq!(Lang::from_str("x-toolongname"), Err(()));
    assert_eq!(Lang::from_str("x-"), Err(()));
    // a country needs two letters; the hyphen is then left over
    assert_eq!(Lang::from_str("de-A"), Err(()));
    assert_eq!(Lang::from_str("12"), Err(()));
}

#[test]
fn lang_iana_takes_anything() {
    assert_eq!(Lang::from_str("i-"), Ok(Lang::Iana(String::new())));
    assert_eq!(
        Lang::from_str("i-a b-c"),
        Ok(Lang::Iana("a b-c".to_string()))
    );
}

#[test]
fn lang_try_from_str_cut_inside_a_character() {
    // three bytes are taken, which ends inside the `é`
    assert_eq!(Lang::try_from_str("abé"), None);
    assert_eq!(Lang::try_from_str("de"), Some(Ok(Lang::Iso(IsoLang::Deutsch, None))));
    assert_eq!(Lang::try_from_str("??"), Some(Err(())));
}

#[test]
fn lang_get_attr() {
    assert_eq!(Lang::get_attr("en-GB"), Ok(Lang::Iso(IsoLang::English, Some(IsoCountry::GB))));
    assert_eq!(
        Lang::get_attr("12"),
        Err(UnknownAttributeValue { value: "12".to_string() })
    );
}

#[test]
fn lang_to_string() {
    assert_eq!(Lang::Iso(IsoLang::English, Some(IsoCountry::US)).to_string(), "en-US");
    assert_eq!(Lang::Iso(IsoLang::Japanese, None).to_string(), "ja");
    assert_eq!(Lang::Iana("Navajo".to_string()).to_string(), "i-Navajo");
    assert_eq!(Lang::Unofficial("Newspeak".to_string()).to_string(), "x-Newspeak");
    assert_eq!(
        Lang::Iso(IsoLang::Other("ko".to_string()), Some(IsoCountry::Other("KR".to_string()))).to_string(),
        "ko-KR"
    );
    assert_eq!(IsoLang::Spanish.to_string(), "es");
    assert_eq!(IsoCountry::CA.to_string(), "CA");
}

#[test]
fn lang_text_reads_back() {
    let tags = vec![
        Lang::Iso(IsoLang::French, Some(IsoCountry::CA)),
        Lang::Iso(IsoLang::Chinese, None),
        Lang::Iso(IsoLang::Other("nld".to_string()), Some(IsoCountry::Other("NL".to_string()))),
        Lang::Iana("Navajo".to_string()),
        Lang::Unofficial("klingon1".to_string()),
    ];
    for t in tags {
        assert_eq!(Lang::from_str(&t.to_string()), Ok(t.duplicate()));
    }
    // an unofficial tag longer than 8 characters does not read back
    let long = Lang::Unofficial("klingons1".to_string());
    assert_eq!(Lang::from_str(&long.to_string()), Err(()));
}

#[test]
fn iso_codes_from_str() {
    assert_eq!(IsoLang::from_str("eng"), IsoLang::English);
    assert_eq!(IsoLang::from_str("jpn"), IsoLang::Japanese);
    assert_eq!(IsoLang::from_str("xx"), IsoLang::Other("xx".to_string()));
    assert_eq!(IsoCountry::from_str("TW"), IsoCountry::TW);
    assert_eq!(IsoCountry::from_str("us"), IsoCountry::Other("us".to_string()));
}

#[test]
fn file_fallback_chains() {
    let fr_ca = Lang::Iso(IsoLang::French, Some(IsoCountry::CA));
    assert_eq!(
        fr_ca.file_iter(),
        vec![
            Lang::Iso(IsoLang::French, Some(IsoCountry::CA)),
            Lang::Iso(IsoLang::French, Some(IsoCountry::FR)),
            Lang::en_us(),
        ]
    );
    assert_eq!(Lang::en_us().file_iter(), vec![Lang::en_us()]);
    assert_eq!(
        Lang::en_au().file_iter(),
        vec![Lang::en_au(), Lang::en_us()]
    );
    let zh_tw = Lang::Iso(IsoLang::Chinese, Some(IsoCountry::TW));
    assert_eq!(
        zh_tw.file_iter(),
        vec![
            Lang::Iso(IsoLang::Chinese, Some(IsoCountry::TW)),
            Lang::Iso(IsoLang::Chinese, Some(IsoCountry::CN)),
            Lang::en_us(),
        ]
    );
    // the main dialect itself goes straight to en-US
    let de_de = Lang::Iso(IsoLang::Deutsch, Some(IsoCountry::DE));
    assert_eq!(de_de.file_iter(), vec![de_de.duplicate(), Lang::en_us()]);
    let ja = Lang::Iso(IsoLang::Japanese, None);
    assert_eq!(ja.file_iter(), vec![ja.duplicate(), Lang::en_us()]);
    let iana = Lang::Iana("Navajo".to_string());
    assert_eq!(iana.file_iter(), vec![iana.duplicate(), Lang::en_us()]);
}

#[test]
fn file_fallback_never_longer_than_three() {
    let langs = vec![
        Lang::Iso(IsoLang::Portuguese, Some(IsoCountry::BR)),
        Lang::Iso(IsoLang::English, Some(IsoCountry::GB)),
        Lang::Iso(IsoLang::Arabic, None),
        Lang::Unofficial("x".to_string()),
    ];
    for l in langs {
        let chain = l.file_iter();
        assert!(chain.len() <= 3);
        assert_eq!(chain[0], l);
        assert_eq!(chain[chain.len() - 1], Lang::en_us());
    }
}

#[test]
fn inline_fallback_without_country() {
    let ja = Lang::Iso(IsoLang::Japanese, None);
    assert_eq!(ja.inline_iter(), vec![ja.duplicate()]);
    assert_eq!(ja.inline_fallback(), None);
}

#[test]
fn lang_iter_sources() {
    let de_at = Lang::Iso(IsoLang::Deutsch, Some(IsoCountry::AT));
    let de = Lang::Iso(IsoLang::Deutsch, None);
    let de_de = Lang::Iso(IsoLang::Deutsch, Some(IsoCountry::DE));
    assert_eq!(
        de_at.iter(),
        vec![
            LocaleSource::Inline(Some(de_at.duplicate())),
            LocaleSource::Inline(Some(de)),
            LocaleSource::Inline(None),
            LocaleSource::File(de_at.duplicate()),
            LocaleSource::File(de_de),
            LocaleSource::File(Lang::en_us()),
        ]
    );
}

#[test]
fn lang_default_is_en_us() {
    assert_eq!(Lang::default(), Lang::Iso(IsoLang::English, Some(IsoCountry::US)));
}

#[test]
fn lang_try_get_attr_any_value() {
    assert_eq!(Lang::try_get_attr("de-AT"), Some(Ok(Lang::Iso(IsoLang::Deutsch, Some(IsoCountry::AT)))));
    assert_eq!(
        Lang::try_get_attr("12"),
        Some(Err(UnknownAttributeValue { value: "12".to_string() }))
    );
    assert_eq!(Lang::try_get_attr("abé"), None);
}
