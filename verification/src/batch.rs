//! Sending stored records to the remote server in batches.
use crate::text::decimal;
use vstd::prelude::*;
use vstd::string::StringExecFns;
use vstd::utf8::*;

verus! {

/// The number under which the server knows the sensors of this session.
pub const SESSION_SENSOR_ID: u64 = 1;

/// How the server's answer starts when it has taken a batch.
pub const CONFIRMATION: &'static str = "HTTP/1.1 204";

/// A JSON value of the `serde_json` crate.
#[verifier::external_type_specification]
#[verifier::external_body]
pub struct ExValue(serde_json::Value);

/// A stored record, read back.
pub struct DataPoint {
    pub timestamp: String,
    pub sensor_blob: serde_json::Value,
}

/// A stored record with the sensor object as JSON text.
pub struct EncodedPoint {
    pub timestamp: String,
    pub blob: String,
}

/// What `serde_json::to_string` returns for a JSON value: its text, or what its error says where it
/// fails.
pub uninterp spec fn json_text(value: serde_json::Value) -> Result<Seq<char>, Seq<char>>;

/// Calls `serde_json::to_string`. The result depends on the value alone, and is named `json_text`;
/// of an error only its message is kept.
#[verifier::external_body]
fn json_string(value: &serde_json::Value) -> (text: Result<String, String>)
    ensures
        json_text(*value) == match text {
            Ok(t) => Ok(t@),
            Err(e) => Err(e@),
        },
{
    match serde_json::to_string(value) {
        Ok(t) => Ok(t),
        Err(e) => Err(e.to_string()),
    }
}

/// Calls `String::from_utf8`: the text whose UTF-8 encoding the bytes are, and the bytes themselves
/// if they are not valid UTF-8.
#[verifier::external_body]
fn utf8_string(bytes: Vec<u8>) -> (text: Result<String, Vec<u8>>)
    ensures
        text is Ok <==> valid_utf8(bytes@),
        text matches Ok(t) ==> encode_utf8(t@) == bytes@,
        text matches Err(b) ==> b@ == bytes@,
{
    match String::from_utf8(bytes) {
        Ok(t) => Ok(t),
        Err(e) => Err(e.into_bytes()),
    }
}

/// The text of a stored row, before it is parsed. A row that is not valid UTF-8 is handed back.
pub fn row_text(blob: Vec<u8>) -> (text: Result<String, Vec<u8>>)
    ensures
        text is Ok <==> valid_utf8(blob@),
        text matches Ok(t) ==> encode_utf8(t@) == blob@,
        text matches Err(b) ==> b@ == blob@,
{
    utf8_string(blob)
}

/// A record in the form that the server expects.
pub open spec fn point_text(timestamp: Seq<char>, blob: Seq<char>) -> Seq<char> {
    "{\"id\":"@ + crate::text::digits(SESSION_SENSOR_ID as nat) + ",\"datetime\":\""@ + timestamp
        + "\",\"data_blob\":"@ + blob + "}"@
}

/// The records, each but the first with a comma before it.
pub open spec fn points_text(points: Seq<(Seq<char>, Seq<char>)>) -> Seq<char>
    decreases points.len(),
{
    if points.len() == 0 {
        Seq::empty()
    } else {
        let before = points_text(points.drop_last());
        let comma = if points.len() > 1 {
            ","@
        } else {
            Seq::empty()
        };
        before + comma + point_text(points.last().0, points.last().1)
    }
}

/// The body of the request that sends the records.
pub open spec fn body_text(points: Seq<(Seq<char>, Seq<char>)>) -> Seq<char> {
    "{\"datapoints\":["@ + points_text(points) + "]}"@
}

/// What stands before the body: the request line, the kind and the length of the body in bytes,
/// and an empty line.
pub open spec fn head_text(endpoint: Seq<char>, body: Seq<char>) -> Seq<char> {
    "POST "@ + endpoint
        + " HTTP/1.1\r\nContent-Type: application/json\r\nContent-Length: "@
        + crate::text::digits(encode_utf8(body).len()) + "\r\n\r\n"@
}

/// The request that sends `body` to `endpoint`.
pub open spec fn request_text(endpoint: Seq<char>, body: Seq<char>) -> Seq<char> {
    head_text(endpoint, body) + body
}

/// The answer says that the server has taken the batch.
pub open spec fn is_confirmation(response: Seq<u8>) -> bool {
    encode_utf8(CONFIRMATION@).is_prefix_of(response)
}

/// The timestamps and texts of encoded records.
pub open spec fn encoded_views(points: Seq<EncodedPoint>) -> Seq<(Seq<char>, Seq<char>)> {
    points.map_values(|p: EncodedPoint| (p.timestamp@, p.blob@))
}

/// Every sensor object has a JSON text.
pub open spec fn all_encodable(points: Seq<DataPoint>) -> bool {
    forall|i: int| 0 <= i < points.len() ==> json_text((#[trigger] points[i]).sensor_blob) is Ok
}

/// `fault` is why the first sensor object that has no JSON text has none.
pub open spec fn is_first_fault(points: Seq<DataPoint>, fault: Seq<char>) -> bool {
    exists|i: int|
        0 <= i < points.len() && all_encodable(points.take(i)) && json_text(
            (#[trigger] points[i]).sensor_blob,
        ) == Err::<Seq<char>, Seq<char>>(fault)
}

/// The timestamps of the records and the JSON texts of their sensor objects.
pub open spec fn point_views(points: Seq<DataPoint>) -> Seq<(Seq<char>, Seq<char>)> {
    points.map_values(|p: DataPoint| (p.timestamp@, json_text(p.sensor_blob)->Ok_0))
}

/// The length that the request announces is the number of bytes that follow the empty line.
pub proof fn content_length_is_the_body_length(endpoint: Seq<char>, body: Seq<char>)
    ensures
        encode_utf8(request_text(endpoint, body)) == encode_utf8(head_text(endpoint, body))
            + encode_utf8(body),
        crate::text::digits_value(crate::text::digits(encode_utf8(body).len())) == encode_utf8(
            body,
        ).len(),
{
    crate::text::encode_concat(head_text(endpoint, body), body);
    crate::text::digits_read_back(encode_utf8(body).len());
}

/// Records that are added to a batch stand behind the others, which stay as they are.
pub proof fn points_are_appended(
    points: Seq<(Seq<char>, Seq<char>)>,
    more: Seq<(Seq<char>, Seq<char>)>,
)
    requires
        points.len() > 0,
        more.len() > 0,
    ensures
        points_text(points + more) == points_text(points) + ","@ + points_text(more),
    decreases more.len(),
{
    let init = more.drop_last();
    assert((points + more).drop_last() == points + init);
    assert((points + more).last() == more.last());
    if init.len() == 0 {
        assert(points + init == points);
        assert(points_text(init) == Seq::<char>::empty());
        assert(points_text(points + more) == points_text(points) + ","@ + points_text(more));
    } else {
        points_are_appended(points, init);
        assert(points_text(points + more) == points_text(points) + ","@ + points_text(more));
    }
}

/// An answer confirms a batch exactly if its first twelve bytes are those of `HTTP/1.1 204`: none
/// with another status does, and what follows makes no difference.
pub proof fn only_status_204_confirms(response: Seq<u8>)
    ensures
        is_confirmation(response) <==> response.len() >= 12 && response.take(12) == seq![
            72u8,
            84,
            84,
            80,
            47,
            49,
            46,
            49,
            32,
            50,
            48,
            52,
        ],
{
    let expected = seq![72u8, 84, 84, 80, 47, 49, 46, 49, 32, 50, 48, 52];
    reveal_strlit("HTTP/1.1 204");
    is_ascii_chars_encode_utf8(CONFIRMATION@);
    assert(encode_utf8(CONFIRMATION@) =~= expected);
    if response.len() >= 12 {
        assert(response.take(12) =~= response.subrange(0, 12));
    }
}

/// Two answers that agree on their first twelve bytes confirm a batch both or neither, and one that
/// differs there from an answer that confirms does not confirm.
pub proof fn confirmation_hangs_on_twelve_bytes(a: Seq<u8>, b: Seq<u8>)
    requires
        a.len() >= 12,
        b.len() >= 12,
    ensures
        a.take(12) == b.take(12) ==> is_confirmation(a) == is_confirmation(b),
        is_confirmation(a) && a.take(12) != b.take(12) ==> !is_confirmation(b),
{
    only_status_204_confirms(a);
    only_status_204_confirms(b);
}

/// A sensor number, a timestamp and a sensor object make the text of a record.
proof fn point_text_reads(timestamp: Seq<char>, blob: Seq<char>)
    ensures
        point_text(timestamp, blob) == "{\"id\":1,\"datetime\":\""@ + timestamp
            + "\",\"data_blob\":"@ + blob + "}"@,
{
    reveal_strlit("{\"id\":");
    reveal_strlit(",\"datetime\":\"");
    reveal_strlit("{\"id\":1,\"datetime\":\"");
    assert(crate::text::digits(1) =~= seq!['1']);
    assert("{\"id\":"@ + crate::text::digits(SESSION_SENSOR_ID as nat) + ",\"datetime\":\""@
        =~= "{\"id\":1,\"datetime\":\""@);
}

/// The body of a batch is the opening, then for every record its own text, in order and with a
/// comma between each two, and then the closing. Nothing is left out, however many there are.
pub proof fn body_holds_every_record(
    points: Seq<(Seq<char>, Seq<char>)>,
    texts: Seq<Seq<char>>,
)
    requires
        texts.len() == points.len(),
        forall|i: int|
            0 <= i < points.len() ==> #[trigger] texts[i] == (if i > 0 {
                ","@
            } else {
                Seq::empty()
            }) + "{\"id\":1,\"datetime\":\""@ + points[i].0 + "\",\"data_blob\":"@ + points[i].1
                + "}"@,
    ensures
        body_text(points) == "{\"datapoints\":["@ + texts.flatten() + "]}"@,
{
    points_text_is_flat(points, texts);
}

proof fn points_text_is_flat(points: Seq<(Seq<char>, Seq<char>)>, texts: Seq<Seq<char>>)
    requires
        texts.len() == points.len(),
        forall|i: int|
            0 <= i < points.len() ==> #[trigger] texts[i] == (if i > 0 {
                ","@
            } else {
                Seq::empty()
            }) + "{\"id\":1,\"datetime\":\""@ + points[i].0 + "\",\"data_blob\":"@ + points[i].1
                + "}"@,
    ensures
        points_text(points) == texts.flatten(),
    decreases points.len(),
{
    if points.len() > 0 {
        let k = points.len() - 1;
        let init = texts.drop_last();
        assert forall|i: int| 0 <= i < k implies #[trigger] init[i] == (if i > 0 {
            ","@
        } else {
            Seq::empty()
        }) + "{\"id\":1,\"datetime\":\""@ + points.drop_last()[i].0 + "\",\"data_blob\":"@
            + points.drop_last()[i].1 + "}"@ by {
            assert(texts[i] == init[i]);
        }
        points_text_is_flat(points.drop_last(), init);
        point_text_reads(points[k].0, points[k].1);
        texts.lemma_flatten_and_flatten_alt_are_equivalent();
        init.lemma_flatten_and_flatten_alt_are_equivalent();
        assert(texts[k] == texts.last());
        assert(points_text(points) =~= texts.flatten());
    }
}

/// One more record is put in before the closing, with a comma before it if it is not the first; the
/// rest of the body stays as it is.
pub proof fn one_more_record_is_put_in_last(
    points: Seq<(Seq<char>, Seq<char>)>,
    timestamp: Seq<char>,
    blob: Seq<char>,
)
    ensures
        body_text(Seq::empty()) == "{\"datapoints\":[]}"@,
        body_text(points).len() >= 2,
        body_text(points.push((timestamp, blob))) == body_text(points).take(
            body_text(points).len() - 2,
        ) + (if points.len() > 0 {
            ","@
        } else {
            Seq::empty()
        }) + "{\"id\":1,\"datetime\":\""@ + timestamp + "\",\"data_blob\":"@ + blob + "}]}"@,
{
    reveal_strlit("{\"datapoints\":[");
    reveal_strlit("{\"datapoints\":[]}");
    reveal_strlit("]}");
    reveal_strlit("}");
    reveal_strlit("}]}");
    assert(body_text(Seq::empty()) =~= "{\"datapoints\":[]}"@);
    point_text_reads(timestamp, blob);
    let more = points.push((timestamp, blob));
    assert(more.drop_last() =~= points);
    assert("}"@ + "]}"@ =~= "}]}"@);
    assert(body_text(points).take(body_text(points).len() - 2) =~= "{\"datapoints\":["@
        + points_text(points));
    assert(body_text(more) =~= body_text(points).take(body_text(points).len() - 2) + (
    if points.len() > 0 {
        ","@
    } else {
        Seq::empty()
    }) + "{\"id\":1,\"datetime\":\""@ + timestamp + "\",\"data_blob\":"@ + blob + "}]}"@);
}

/// The body of more records is the body of the first ones with the texts of all the others put in
/// before the closing.
pub proof fn body_of_more_records(
    points: Seq<(Seq<char>, Seq<char>)>,
    more: Seq<(Seq<char>, Seq<char>)>,
)
    requires
        points.len() > 0,
        more.len() > 0,
    ensures
        body_text(points).len() >= 17,
        body_text(more).len() >= 17,
        body_text(points + more) == body_text(points).take(body_text(points).len() - 2) + ","@
            + body_text(more).skip(15),
{
    reveal_strlit("{\"datapoints\":[");
    reveal_strlit("]}");
    points_are_appended(points, more);
    assert(body_text(points).take(body_text(points).len() - 2) =~= "{\"datapoints\":["@
        + points_text(points));
    assert(body_text(more).skip(15) =~= points_text(more) + "]}"@);
    assert(body_text(points + more) =~= body_text(points).take(body_text(points).len() - 2) + ","@
        + body_text(more).skip(15));
}

/// Every record of a batch counts, with its own timestamp and sensor object.
pub proof fn every_record_is_viewed(encoded: Seq<EncodedPoint>, points: Seq<DataPoint>)
    ensures
        encoded_views(encoded).len() == encoded.len(),
        forall|i: int|
            0 <= i < encoded.len() ==> (#[trigger] encoded_views(encoded)[i]) == (
                encoded[i].timestamp@,
                encoded[i].blob@,
            ),
        point_views(points).len() == points.len(),
        forall|i: int|
            0 <= i < points.len() ==> (#[trigger] point_views(points)[i]).0
                == points[i].timestamp@,
        forall|i: int|
            0 <= i < points.len() && json_text(points[i].sensor_blob) is Ok ==> json_text(
                points[i].sensor_blob,
            ) == Ok::<Seq<char>, Seq<char>>((#[trigger] point_views(points)[i]).1),
        all_encodable(points) <==> (forall|i: int|
            0 <= i < points.len() ==> json_text((#[trigger] points[i]).sensor_blob) is Ok),
{
}

/// The fault of a batch is that of its first record whose sensor object has no JSON text.
pub proof fn first_fault_reads(points: Seq<DataPoint>)
    ensures
        forall|fault: Seq<char>| #[trigger]
            is_first_fault(points, fault) ==> exists|i: int|
                0 <= i < points.len() && json_text((#[trigger] points[i]).sensor_blob) == Err::<
                    Seq<char>,
                    Seq<char>,
                >(fault) && forall|k: int|
                    0 <= k < i ==> json_text((#[trigger] points[k]).sensor_blob) is Ok,
{
    assert forall|fault: Seq<char>| #[trigger] is_first_fault(points, fault) implies exists|i: int|
        0 <= i < points.len() && json_text((#[trigger] points[i]).sensor_blob) == Err::<
            Seq<char>,
            Seq<char>,
        >(fault) && forall|k: int|
            0 <= k < i ==> json_text((#[trigger] points[k]).sensor_blob) is Ok by {
        let i = choose|i: int|
            0 <= i < points.len() && all_encodable(points.take(i)) && json_text(
                (#[trigger] points[i]).sensor_blob,
            ) == Err::<Seq<char>, Seq<char>>(fault);
        assert forall|k: int| 0 <= k < i implies json_text(
            (#[trigger] points[k]).sensor_blob,
        ) is Ok by {
            assert(points.take(i)[k] == points[k]);
        }
        assert(json_text(points[i].sensor_blob) is Err);
    }
}

/// A request names the endpoint, announces as many bytes as its body has, and ends with the body.
pub proof fn request_reads(endpoint: Seq<char>, body: Seq<char>)
    ensures
        request_text(endpoint, body) == "POST "@ + endpoint
            + " HTTP/1.1\r\nContent-Type: application/json\r\nContent-Length: "@
            + crate::text::digits(encode_utf8(body).len()) + "\r\n\r\n"@ + body,
        head_text(endpoint, body) + body == request_text(endpoint, body),
{
}

/// Writes each sensor object as JSON text. The first that has none is the reason to fail.
pub fn encode_points(points: &Vec<DataPoint>) -> (r: Result<Vec<EncodedPoint>, String>)
    ensures
        r is Ok <==> all_encodable(points@),
        r matches Ok(encoded) ==> encoded_views(encoded@) == point_views(points@),
        r matches Err(fault) ==> is_first_fault(points@, fault@),
        r is Ok <==> (forall|i: int|
            0 <= i < points@.len() ==> json_text((#[trigger] points@[i]).sensor_blob) is Ok),
        r matches Ok(encoded) ==> encoded@.len() == points@.len(),
        r matches Ok(encoded) ==> (forall|i: int|
            0 <= i < points@.len() ==> encoded@[i].timestamp@ == (#[trigger] points@[i]).timestamp@
                && json_text(points@[i].sensor_blob) == Ok::<Seq<char>, Seq<char>>(
                encoded@[i].blob@,
            )),
        r matches Err(fault) ==> (exists|i: int|
            0 <= i < points@.len() && json_text((#[trigger] points@[i]).sensor_blob) == Err::<
                Seq<char>,
                Seq<char>,
            >(fault@) && (forall|k: int|
                0 <= k < i ==> json_text((#[trigger] points@[k]).sensor_blob) is Ok)),
{
    let mut encoded: Vec<EncodedPoint> = Vec::new();
    let mut i: usize = 0;
    while i < points.len()
        invariant
            i <= points@.len(),
            encoded@.len() == i,
            forall|k: int|
                0 <= k < i ==> json_text((#[trigger] points@[k]).sensor_blob) == Ok::<
                    Seq<char>,
                    Seq<char>,
                >(encoded@[k].blob@) && encoded@[k].timestamp@ == points@[k].timestamp@,
        decreases points@.len() - i,
    {
        match json_string(&points[i].sensor_blob) {
            Ok(blob) => {
                let timestamp = points[i].timestamp.clone();
                encoded.push(EncodedPoint { timestamp, blob });
            },
            Err(fault) => {
                proof {
                    assert forall|k: int| 0 <= k < i implies json_text(
                        (#[trigger] points@.take(i as int)[k]).sensor_blob,
                    ) is Ok by {
                        assert(points@.take(i as int)[k] == points@[k]);
                    }
                    assert(json_text(points@[i as int].sensor_blob) is Err);
                }
                return Err(fault);
            },
        }
        i = i + 1;
    }
    proof {
        assert(encoded_views(encoded@) =~= point_views(points@));
    }
    Ok(encoded)
}

/// The body of the request that sends the records.
pub fn batch_body(points: &Vec<EncodedPoint>) -> (body: String)
    ensures
        body@ == body_text(encoded_views(points@)),
        body@ == "{\"datapoints\":["@ + Seq::new(
            points@.len(),
            |i: int|
                (if i > 0 {
                    ","@
                } else {
                    Seq::empty()
                }) + "{\"id\":1,\"datetime\":\""@ + points@[i].timestamp@ + "\",\"data_blob\":"@
                    + points@[i].blob@ + "}"@,
        ).flatten() + "]}"@,
{
    proof {
        body_holds_every_record(
            encoded_views(points@),
            Seq::new(
                points@.len(),
                |i: int|
                    (if i > 0 {
                        ","@
                    } else {
                        Seq::empty()
                    }) + "{\"id\":1,\"datetime\":\""@ + points@[i].timestamp@
                        + "\",\"data_blob\":"@ + points@[i].blob@ + "}"@,
            ),
        );
    }
    let ghost views = encoded_views(points@);
    let mut body = "{\"datapoints\":[".to_owned();
    let mut i: usize = 0;
    proof {
        assert(body@ == "{\"datapoints\":["@ + points_text(views.take(0)));
    }
    while i < points.len()
        invariant
            i <= points@.len(),
            views == encoded_views(points@),
            body@ == "{\"datapoints\":["@ + points_text(views.take(i as int)),
        decreases points@.len() - i,
    {
        if i > 0 {
            body.append(",");
        }
        body.append("{\"id\":");
        body.append(decimal(SESSION_SENSOR_ID as u128).as_str());
        body.append(",\"datetime\":\"");
        body.append(points[i].timestamp.as_str());
        body.append("\",\"data_blob\":");
        body.append(points[i].blob.as_str());
        body.append("}");
        proof {
            assert(views.take(i + 1).drop_last() == views.take(i as int));
            assert(views.take(i + 1).last() == views[i as int]);
            assert(body@ == "{\"datapoints\":["@ + points_text(views.take(i + 1)));
        }
        i = i + 1;
    }
    body.append("]}");
    proof {
        assert(views.take(i as int) == views);
    }
    body
}

/// The request that sends `body` to `endpoint`.
pub fn request(endpoint: &str, body: &str) -> (r: String)
    ensures
        r@ == request_text(endpoint@, body@),
        r@ == "POST "@ + endpoint@
            + " HTTP/1.1\r\nContent-Type: application/json\r\nContent-Length: "@
            + crate::text::digits(encode_utf8(body@).len()) + "\r\n\r\n"@ + body@,
{
    let mut r = "POST ".to_owned();
    r.append(endpoint);
    r.append(" HTTP/1.1\r\nContent-Type: application/json\r\nContent-Length: ");
    r.append(decimal(body.as_bytes().len() as u128).as_str());
    r.append("\r\n\r\n");
    r.append(body);
    r
}

/// Whether the server's answer says that it has taken the batch.
pub fn confirms(response: &[u8]) -> (r: bool)
    ensures
        r == is_confirmation(response@),
        r <==> response@.len() >= 12 && response@.take(12) == seq![
            72u8,
            84,
            84,
            80,
            47,
            49,
            46,
            49,
            32,
            50,
            48,
            52,
        ],
{
    proof {
        only_status_204_confirms(response@);
    }
    let expected = CONFIRMATION.as_bytes();
    if response.len() < expected.len() {
        return false;
    }
    let mut i: usize = 0;
    while i < expected.len()
        invariant
            i <= expected@.len() <= response@.len(),
            expected@ == encode_utf8(CONFIRMATION@),
            forall|k: int| 0 <= k < i ==> expected@[k] == response@[k],
        decreases expected@.len() - i,
    {
        proof {
            only_status_204_confirms(response@);
        }
        if response[i] != expected[i] {
            proof {
                assert(response@.subrange(0, expected@.len() as int)[i as int] != expected@[i as int]);
            }
            return false;
        }
        i = i + 1;
    }
    proof {
        assert(expected@ =~= response@.subrange(0, expected@.len() as int));
    }
    true
}

} // verus!
