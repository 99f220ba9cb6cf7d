use dlc_decrypter::container::{key_segment, split_container};
use dlc_decrypter::{DlcDecoder, DlcError, DlcLink, DlcPackage, KeyRequest, ServiceReply};

const APP_KEY: &[u8] = b"cb99b5cbc24db398";
const APP_IV: &[u8] = b"9bc24cb995cb8db3";
const CONTENT_KEY: &[u8] = b"k3y-0f-16-bytes!";
const SUFFIX: &[u8] =
    b"MDEyMzQ1Njc4OWFiY2RlZjAxMjM0NTY3ODlhYmNkZWYwMTIzNDU2Nzg5YWJjZGVmMDEyMzQ1Njc4OWFiY2RlZg==";

fn encrypt(plain: &[u8], key: &[u8], iv: &[u8]) -> Vec<u8> {
    let mut out = vec![0u8; plain.len()];
    let mut engine = crypto::aes::cbc_encryptor(
        crypto::aes::KeySize::KeySize128,
        key,
        iv,
        crypto::blockmodes::NoPadding,
    );
    {
        let mut source = crypto::buffer::RefReadBuffer::new(plain);
        let mut sink = crypto::buffer::RefWriteBuffer::new(&mut out);
        engine.encrypt(&mut source, &mut sink, true).unwrap();
    }
    out
}

fn zero_padded(mut bytes: Vec<u8>) -> Vec<u8> {
    while bytes.len() % 16 != 0 {
        bytes.push(0);
    }
    bytes
}

fn b64(s: &str) -> String {
    base64::encode(s.as_bytes())
}

/// A container that holds `inner`, wrapped in cipher and base64.
fn container_around(inner: Vec<u8>, content_key: &[u8], suffix: &[u8]) -> Vec<u8> {
    let cipher = encrypt(&zero_padded(inner), content_key, content_key);
    let mut data = base64::encode(&cipher).into_bytes();
    data.extend_from_slice(suffix);
    data
}

fn container(text: &str) -> Vec<u8> {
    container_around(b64(text).into_bytes(), CONTENT_KEY, SUFFIX)
}

/// The service's answer that wraps `content_key` for the given application.
fn reply_for(content_key: &[u8], app_key: &[u8], app_iv: &[u8]) -> ServiceReply {
    let wrapped = encrypt(content_key, app_key, app_iv);
    let mut body = b"<rc>".to_vec();
    body.extend_from_slice(base64::encode(&wrapped).as_bytes());
    body.extend_from_slice(b"</rc>");
    ServiceReply::Body(body)
}

fn reply() -> ServiceReply {
    reply_for(CONTENT_KEY, APP_KEY, APP_IV)
}

fn link(url: &str, name: &str, size: &str) -> DlcLink {
    DlcLink { url: url.to_string(), name: name.to_string(), size: size.to_string() }
}

fn sample_text() -> String {
    format!(
        "<dlc><header><generator><app>x</app></generator></header><content>\
         <package name=\"{}\" passwords=\"{}\" comment=\"\">\
         <file><url>{}</url><filename>{}</filename><size>{}</size></file>\
         <file><url>{}</url><filename>{}</filename><size>{}</size></file>\
         </package></content></dlc>",
        b64("Holiday pictures"),
        b64("open sesame"),
        b64("http://example.com/files/one.zip"),
        b64("one.zip"),
        b64("1048576"),
        b64("http://example.com/files/two.zip"),
        b64("two.zip"),
        b64("52")
    )
}

#[test]
fn suffix_of_the_samples_has_the_right_length() {
    assert_eq!(SUFFIX.len(), 88);
    assert_eq!(CONTENT_KEY.len(), 16);
    assert!(CONTENT_KEY.iter().all(|b| *b != 0));
}

#[test]
fn split_container_cuts_off_the_last_88_bytes() {
    let mut data = b"content".to_vec();
    data.extend_from_slice(SUFFIX);
    assert_eq!(split_container(&data), Ok((&b"content"[..], SUFFIX)));
    let mut data = vec![1u8];
    data.extend_from_slice(&[2u8; 88]);
    assert_eq!(split_container(&data), Ok((&[1u8][..], &[2u8; 88][..])));
}

#[test]
fn split_container_refuses_short_containers() {
    assert_eq!(split_container(&[]), Err(DlcError::CorruptedContainer));
    assert_eq!(split_container(&[0u8; 87]), Err(DlcError::CorruptedContainer));
    assert_eq!(split_container(SUFFIX), Err(DlcError::CorruptedContainer));
    assert!(split_container(&[0u8; 89]).is_ok());
}

#[test]
fn key_segment_takes_bytes_4_to_28() {
    let body = b"<rc>abcdefghijklmnopqrstuvwx</rc>";
    assert_eq!(body.len(), 33);
    assert_eq!(key_segment(body), Ok(&b"abcdefghijklmnopqrstuvwx"[..]));
}

#[test]
fn key_segment_refuses_other_lengths() {
    assert_eq!(key_segment(b""), Err(DlcError::UnexpectedServiceResponse));
    assert_eq!(key_segment(&[b'x'; 32]), Err(DlcError::UnexpectedServiceResponse));
    assert_eq!(key_segment(&[b'x'; 34]), Err(DlcError::UnexpectedServiceResponse));
    assert_eq!(key_segment(b"<rc>abcdefghijklmnopqrstuvwx</rc>\n"), Err(DlcError::UnexpectedServiceResponse));
}

#[test]
fn key_request_names_application_and_key_material() {
    let data = container("<package >");
    let request = DlcDecoder::new().key_request(&data).unwrap();
    assert_eq!(
        request,
        KeyRequest {
            url: format!(
                "http://service.jdownloader.org/dlcrypt/service.php?srcType=dlc&destType=pylo&data={}",
                String::from_utf8(SUFFIX.to_vec()).unwrap()
            ),
            user_agent:
                "Mozilla/5.3 (Windows; U; Windows NT 5.1; de; rv:1.8.1.6) Gecko/2232 Firefox/3.0.0.R"
                    .to_string(),
        }
    );
}

#[test]
fn key_request_of_a_configured_decoder() {
    let decoder = DlcDecoder::with_config("load".to_string(), APP_KEY.to_vec(), APP_IV.to_vec());
    let mut data = vec![b'x'];
    data.extend_from_slice(&[b'k'; 88]);
    let request = decoder.key_request(&data).unwrap();
    assert_eq!(
        request.url,
        format!(
            "http://service.jdownloader.org/dlcrypt/service.php?srcType=dlc&destType=load&data={}",
            "k".repeat(88)
        )
    );
}

#[test]
fn key_request_refuses_short_containers() {
    let decoder = DlcDecoder::new();
    assert_eq!(decoder.key_request(&[]), Err(DlcError::CorruptedContainer));
    assert_eq!(decoder.key_request(SUFFIX), Err(DlcError::CorruptedContainer));
}

#[test]
fn key_request_refuses_key_material_that_is_no_text() {
    let mut data = b"content".to_vec();
    data.extend_from_slice(&[0xff; 88]);
    assert_eq!(DlcDecoder::new().key_request(&data), Err(DlcError::EncodingError));
}

#[test]
fn get_jd_decryption_key_decodes_the_segment() {
    let decoder = DlcDecoder::new();
    let body = b"<rc>MDEyMzQ1Njc4OWFiY2RlZg==</rc>".to_vec();
    assert_eq!(
        decoder.get_jd_decryption_key(SUFFIX, &ServiceReply::Body(body)),
        Ok(b"0123456789abcdef".to_vec())
    );
}

#[test]
fn get_jd_decryption_key_refuses_a_reply_of_the_wrong_length() {
    let decoder = DlcDecoder::new();
    for body in [&b""[..], &b"<rc></rc>"[..], &[b'A'; 32][..], &[b'A'; 34][..]] {
        assert_eq!(
            decoder.get_jd_decryption_key(SUFFIX, &ServiceReply::Body(body.to_vec())),
            Err(DlcError::UnexpectedServiceResponse)
        );
    }
}

#[test]
fn get_jd_decryption_key_without_reply_is_a_transport_error() {
    assert_eq!(
        DlcDecoder::new().get_jd_decryption_key(SUFFIX, &ServiceReply::NoAnswer),
        Err(DlcError::TransportError)
    );
}

#[test]
fn get_jd_decryption_key_refuses_a_segment_that_is_not_base64() {
    let body = b"<rc>!!!!!!!!!!!!!!!!!!!!!!!!</rc>".to_vec();
    assert_eq!(body.len(), 33);
    assert_eq!(
        DlcDecoder::new().get_jd_decryption_key(SUFFIX, &ServiceReply::Body(body)),
        Err(DlcError::Base64DecodeError)
    );
}

#[test]
fn get_jd_decryption_key_checks_the_key_material_first() {
    let decoder = DlcDecoder::new();
    assert_eq!(
        decoder.get_jd_decryption_key(&[0xc0; 88], &ServiceReply::NoAnswer),
        Err(DlcError::EncodingError)
    );
    assert_eq!(
        decoder.get_jd_decryption_key(&[0xc0; 88], &ServiceReply::Body(vec![])),
        Err(DlcError::EncodingError)
    );
}

#[test]
fn unwrap_content_peels_the_three_layers() {
    let data = container("some text \u{2713}");
    let blob = &data[..data.len() - 88];
    assert_eq!(
        DlcDecoder::unwrap_content(blob, CONTENT_KEY),
        Ok("some text \u{2713}".to_string())
    );
}

#[test]
fn decrypt_dlc_gives_the_text() {
    let text = sample_text();
    assert_eq!(DlcDecoder::new().decrypt_dlc(&container(&text), &reply()), Ok(text));
}

#[test]
fn from_data_decodes_a_whole_container() {
    let package = DlcDecoder::new().from_data(&container(&sample_text()), &reply());
    assert_eq!(
        package,
        Ok(DlcPackage {
            name: "Holiday pictures".to_string(),
            password: "open sesame".to_string(),
            files: vec![
                link("http://example.com/files/one.zip", "one.zip", "1048576"),
                link("http://example.com/files/two.zip", "two.zip", "52"),
            ],
        })
    );
}

#[test]
fn from_data_with_other_keys() {
    let app_key = b"another app key!";
    let app_iv = b"and another iv..";
    let content_key = b"\x01\x02\x03\x04\x05\x06\x07\x08\x09\x0a\x0b\x0c\x0d\x0e\x0f\x10";
    let decoder = DlcDecoder::with_config("app".to_string(), app_key.to_vec(), app_iv.to_vec());
    let text = format!("<package name=\"{}\" passwords=\"{}\"><file><url>plain</url>", b64("n"), b64("p"));
    let data = container_around(b64(&text).into_bytes(), content_key, SUFFIX);
    assert_eq!(
        decoder.from_data(&data, &reply_for(content_key, app_key, app_iv)),
        Ok(DlcPackage {
            name: "n".to_string(),
            password: "p".to_string(),
            files: vec![link("plain", "", "")],
        })
    );
    assert!(DlcDecoder::new().from_data(&data, &reply_for(content_key, app_key, app_iv)).is_err());
}

#[test]
fn from_data_without_files_still_succeeds() {
    let text = format!("<package name=\"{}\" passwords=\"{}\"></package>", b64("empty"), b64("pw"));
    assert_eq!(
        DlcDecoder::new().from_data(&container(&text), &reply()),
        Ok(DlcPackage { name: "empty".to_string(), password: "pw".to_string(), files: vec![] })
    );
}

#[test]
fn from_data_without_name_attribute_still_succeeds() {
    let text = format!("<package passwords=\"{}\"><file><size>{}</size></file>", b64("pw"), b64("7"));
    assert_eq!(
        DlcDecoder::new().from_data(&container(&text), &reply()),
        Ok(DlcPackage {
            name: String::new(),
            password: String::new(),
            files: vec![link("", "", "7")],
        })
    );
}

#[test]
fn from_data_of_text_without_markup() {
    assert_eq!(
        DlcDecoder::new().from_data(&container("just words"), &reply()),
        Ok(DlcPackage { name: String::new(), password: String::new(), files: vec![] })
    );
}

#[test]
fn from_data_refuses_short_containers() {
    let decoder = DlcDecoder::new();
    for len in [0usize, 1, 33, 87, 88] {
        let data = vec![b'A'; len];
        assert_eq!(decoder.from_data(&data, &reply()), Err(DlcError::CorruptedContainer));
        assert_eq!(
            decoder.from_data(&data, &ServiceReply::NoAnswer),
            Err(DlcError::CorruptedContainer)
        );
        assert_eq!(
            decoder.from_data(&data, &ServiceReply::Body(vec![])),
            Err(DlcError::CorruptedContainer)
        );
    }
}

#[test]
fn from_data_refuses_a_reply_of_the_wrong_length() {
    let decoder = DlcDecoder::new();
    let data = container(&sample_text());
    for len in [0usize, 1, 32, 34, 100] {
        assert_eq!(
            decoder.from_data(&data, &ServiceReply::Body(vec![b'A'; len])),
            Err(DlcError::UnexpectedServiceResponse)
        );
    }
}

#[test]
fn from_data_without_reply_is_a_transport_error() {
    assert_eq!(
        DlcDecoder::new().from_data(&container(&sample_text()), &ServiceReply::NoAnswer),
        Err(DlcError::TransportError)
    );
}

#[test]
fn from_data_refuses_key_material_that_is_no_text() {
    let mut data = container(&sample_text());
    let at = data.len() - 1;
    data[at] = 0xff;
    assert_eq!(DlcDecoder::new().from_data(&data, &reply()), Err(DlcError::EncodingError));
}

#[test]
fn from_data_refuses_content_that_is_not_base64() {
    let mut data = b"*** not base64 ***".to_vec();
    data.extend_from_slice(SUFFIX);
    assert_eq!(DlcDecoder::new().from_data(&data, &reply()), Err(DlcError::Base64DecodeError));
}

#[test]
fn from_data_refuses_a_reply_that_is_not_base64() {
    let body = b"<rc>????????????????????????</rc>".to_vec();
    assert_eq!(
        DlcDecoder::new().from_data(&container(&sample_text()), &ServiceReply::Body(body)),
        Err(DlcError::Base64DecodeError)
    );
}

#[test]
fn from_data_refuses_content_of_partial_blocks() {
    let mut data = base64::encode(&[5u8; 20]).into_bytes();
    data.extend_from_slice(SUFFIX);
    assert_eq!(DlcDecoder::new().from_data(&data, &reply()), Err(DlcError::CipherError));
}

#[test]
fn from_data_refuses_a_wrapped_key_of_partial_blocks() {
    let mut body = b"<rc>".to_vec();
    body.extend_from_slice(base64::encode(&[5u8; 18]).as_bytes());
    body.extend_from_slice(b"</rc>");
    assert_eq!(body.len(), 33);
    assert_eq!(
        DlcDecoder::new().from_data(&container(&sample_text()), &ServiceReply::Body(body)),
        Err(DlcError::CipherError)
    );
}

#[test]
fn from_data_refuses_a_content_key_with_a_zero_byte() {
    let content_key = b"short\0key......!";
    let data = container_around(b64("text").into_bytes(), content_key, SUFFIX);
    assert_eq!(
        DlcDecoder::new().from_data(&data, &reply_for(content_key, APP_KEY, APP_IV)),
        Err(DlcError::CipherError)
    );
}

#[test]
fn from_data_with_a_misconfigured_key_is_a_cipher_error() {
    let data = container(&sample_text());
    let short_key = DlcDecoder::with_config("pylo".to_string(), APP_KEY[..8].to_vec(), APP_IV.to_vec());
    assert_eq!(short_key.from_data(&data, &reply()), Err(DlcError::CipherError));
    let long_iv = DlcDecoder::with_config("pylo".to_string(), APP_KEY.to_vec(), vec![1u8; 24]);
    assert_eq!(long_iv.from_data(&data, &reply()), Err(DlcError::CipherError));
}

#[test]
fn from_data_refuses_an_inner_layer_that_is_not_base64() {
    let data = container_around(b"!! not base64 !!".to_vec(), CONTENT_KEY, SUFFIX);
    assert_eq!(DlcDecoder::new().from_data(&data, &reply()), Err(DlcError::Base64DecodeError));
}

#[test]
fn from_data_refuses_text_that_is_not_utf8() {
    let inner = base64::encode(&[b'o', b'k', 0xff, 0xfe]).into_bytes();
    let data = container_around(inner, CONTENT_KEY, SUFFIX);
    assert_eq!(DlcDecoder::new().from_data(&data, &reply()), Err(DlcError::EncodingError));
}

#[test]
fn message_names_each_failure() {
    assert_eq!(DlcError::CorruptedContainer.message(), "Corrupted data");
    assert_eq!(DlcError::TransportError.message(), "The key service could not be reached");
    assert_eq!(
        DlcError::UnexpectedServiceResponse.message(),
        "Unexpected answer of the key service"
    );
    assert_eq!(DlcError::Base64DecodeError.message(), "Invalid base64");
    assert_eq!(DlcError::CipherError.message(), "Can't decrypt");
    assert_eq!(DlcError::EncodingError.message(), "Invalid UTF-8");
}
