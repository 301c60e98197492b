//! Images that a message mentions: which they are, what becomes of the message
//! with and without a model that sees, and how they go to a remote model.

use crate::editor;
use crate::json;
use crate::json::{Json, JsonView};
use crate::runtime;
use crate::text;
use crate::turn::{Turn, TurnView};
use crate::wire;
use crate::wire::IrPartView;
use vstd::prelude::*;

verus! {

/// A path of an image.
pub open spec fn is_image(path: Seq<char>) -> bool {
    ||| text::has_suffix(path, ".png"@)
    ||| text::has_suffix(path, ".jpg"@)
    ||| text::has_suffix(path, ".jpeg"@)
}

/// The path that a word mentions, if it is that of an image.
pub open spec fn mentioned(word: Seq<char>) -> Option<Seq<char>> {
    match text::after_prefix(word, "@"@) {
        Some(path) => if is_image(path) {
            Some(path)
        } else {
            None
        },
        None => None,
    }
}

/// The paths of images that words mention, in their order.
pub open spec fn mentioned_in(words: Seq<Seq<char>>) -> Seq<Seq<char>>
    decreases words.len(),
{
    if words.len() == 0 {
        Seq::empty()
    } else {
        let before = mentioned_in(words.drop_last());
        match mentioned(words.last()) {
            Some(path) => before.push(path),
            None => before,
        }
    }
}

fn mention_of(word: &str) -> (r: Option<String>)
    ensures
        text::opt_view(r) == mentioned(word@),
{
    match text::strip_prefix(word, "@") {
        Some(path) => if text::ends_with(path.as_str(), ".png") || text::ends_with(
            path.as_str(),
            ".jpg",
        ) || text::ends_with(path.as_str(), ".jpeg") {
            Some(path)
        } else {
            None
        },
        None => None,
    }
}

/// The paths of images that a message mentions.
pub fn image_mentions(input: &str) -> (r: Vec<String>)
    ensures
        text::views(r@) == mentioned_in(editor::words(input@)),
{
    broadcast use text::lemma_views_push;

    let words = editor::split_words(input);
    let ghost all = text::views(words@);
    let mut out: Vec<String> = Vec::new();
    let mut i: usize = 0;
    assert(all.subrange(0, 0) =~= Seq::empty());
    assert(text::views(out@) =~= Seq::empty());
    while i < words.len()
        invariant
            i <= words.len(),
            all == text::views(words@),
            text::views(out@) == mentioned_in(all.subrange(0, i as int)),
        decreases words.len() - i,
    {
        proof {
            let next = all.subrange(0, i + 1);
            assert(next.drop_last() =~= all.subrange(0, i as int));
            assert(next.last() == words@[i as int]@);
        }
        match mention_of(words[i].as_str()) {
            Some(path) => {
                out.push(path);
            },
            None => {},
        }
        i = i + 1;
    }
    assert(all.subrange(0, all.len() as int) =~= all);
    out
}

/// The paths at which there is a file.
pub open spec fn those_there(paths: Seq<Seq<char>>, there: Seq<bool>) -> Seq<Seq<char>>
    decreases paths.len(),
{
    if paths.len() == 0 {
        Seq::empty()
    } else {
        let before = those_there(paths.drop_last(), there);
        if there[paths.len() - 1] {
            before.push(paths.last())
        } else {
            before
        }
    }
}

/// The remark on an image that no model sees.
pub open spec fn warning(path: Seq<char>) -> Seq<char> {
    path + ": imagem não processada"@
}

/// The remarks on images that no model sees, as they stand in the message.
pub open spec fn warnings(paths: Seq<Seq<char>>) -> Seq<char>
    decreases paths.len(),
{
    if paths.len() == 0 {
        Seq::empty()
    } else {
        warnings(paths.drop_last()) + "\n[AVISO] "@ + warning(paths.last())
    }
}

/// A message made ready: its text, the images that go with it, and remarks for
/// the user.
#[derive(Debug, PartialEq)]
pub struct Prepared {
    pub prompt: String,
    pub images: Vec<String>,
    pub notices: Vec<String>,
}

/// The model of a message made ready.
#[verifier::ext_equal]
pub struct PreparedView {
    pub prompt: Seq<char>,
    pub images: Seq<Seq<char>>,
    pub notices: Seq<Seq<char>>,
}

impl View for Prepared {
    type V = PreparedView;

    open spec fn view(&self) -> PreparedView {
        PreparedView {
            prompt: self.prompt@,
            images: text::views(self.images@),
            notices: text::views(self.notices@),
        }
    }
}

/// What becomes of a message: the images that are there go with it where the
/// model sees; where it does not, the message and the user are told.
pub open spec fn prepared(input: Seq<char>, there: Seq<bool>, sees: bool) -> PreparedView {
    let found = those_there(mentioned_in(editor::words(input)), there);
    if sees {
        PreparedView { prompt: input, images: found, notices: Seq::empty() }
    } else {
        PreparedView {
            prompt: input + warnings(found),
            images: Seq::empty(),
            notices: found.map_values(|p: Seq<char>| warning(p)),
        }
    }
}

fn keep_there(paths: &Vec<String>, there: &Vec<bool>) -> (r: Vec<String>)
    requires
        paths@.len() == there@.len(),
    ensures
        text::views(r@) == those_there(text::views(paths@), there@),
{
    broadcast use text::lemma_views_push;

    let ghost all = text::views(paths@);
    let mut out: Vec<String> = Vec::new();
    let mut i: usize = 0;
    assert(all.subrange(0, 0) =~= Seq::empty());
    assert(text::views(out@) =~= Seq::empty());
    while i < paths.len()
        invariant
            i <= paths.len(),
            paths@.len() == there@.len(),
            all == text::views(paths@),
            text::views(out@) == those_there(all.subrange(0, i as int), there@),
        decreases paths.len() - i,
    {
        proof {
            let next = all.subrange(0, i + 1);
            assert(next.drop_last() =~= all.subrange(0, i as int));
            assert(next.last() == paths@[i as int]@);
        }
        if there[i] {
            out.push(paths[i].as_str().to_string());
        }
        i = i + 1;
    }
    assert(all.subrange(0, all.len() as int) =~= all);
    out
}

/// Makes a message ready. `there` says of each path that `image_mentions`
/// gives whether there is a file; `sees` says that the model takes images.
pub fn prepare_turn(input: &str, there: &Vec<bool>, sees: bool) -> (r: Prepared)
    requires
        there@.len() == mentioned_in(editor::words(input@)).len(),
    ensures
        r@ == prepared(input@, there@, sees),
{
    broadcast use text::lemma_views_push;

    let paths = image_mentions(input);
    assert(text::views(paths@).len() == paths@.len());
    let found = keep_there(&paths, there);
    if sees {
        let r = Prepared { prompt: input.to_string(), images: found, notices: Vec::new() };
        assert(r@ =~= prepared(input@, there@, sees));
        return r;
    }
    let ghost all = text::views(found@);
    let mut prompt = input.to_string();
    let mut notices: Vec<String> = Vec::new();
    let mut i: usize = 0;
    assert(all.subrange(0, 0) =~= Seq::empty());
    assert(prompt@ =~= input@ + warnings(all.subrange(0, 0)));
    while i < found.len()
        invariant
            i <= found.len(),
            all == text::views(found@),
            prompt@ == input@ + warnings(all.subrange(0, i as int)),
            notices.len() == i,
            forall|k: int| 0 <= k < i ==> (#[trigger] notices@[k])@ == warning(all[k]),
        decreases found.len() - i,
    {
        let ghost before = all.subrange(0, i as int);
        proof {
            let next = all.subrange(0, i + 1);
            assert(next.drop_last() =~= before);
            assert(next.last() == found@[i as int]@);
        }
        let remark = text::cat2(found[i].as_str(), ": imagem não processada");
        assert(all[i as int] == found@[i as int]@);
        prompt.append("\n[AVISO] ");
        prompt.append(remark.as_str());
        assert(prompt@ =~= input@ + (warnings(before) + "\n[AVISO] "@ + warning(all[i as int])));
        notices.push(remark);
        i = i + 1;
    }
    assert(all.subrange(0, all.len() as int) =~= all);
    let r = Prepared { prompt, images: Vec::new(), notices };
    assert(r@.notices =~= all.map_values(|p: Seq<char>| warning(p)));
    assert(r@ =~= prepared(input@, there@, sees));
    r
}

/// A message that mentions no image is sent as it is.
pub proof fn law_plain_message_is_kept(input: Seq<char>, there: Seq<bool>, sees: bool)
    requires
        mentioned_in(editor::words(input)).len() == 0,
    ensures
        prepared(input, there, sees) == (PreparedView {
            prompt: input,
            images: Seq::empty(),
            notices: Seq::empty(),
        }),
{
    assert(input + warnings(Seq::empty()) =~= input);
    assert(prepared(input, there, sees) =~= (PreparedView {
        prompt: input,
        images: Seq::empty(),
        notices: Seq::empty(),
    }));
}

/// The mentions stay in the message, whatever is said of them behind it.
pub proof fn law_message_is_kept(input: Seq<char>, there: Seq<bool>, sees: bool)
    ensures
        text::has_prefix(prepared(input, there, sees).prompt, input),
{
    let p = prepared(input, there, sees).prompt;
    assert(p.subrange(0, input.len() as int) =~= input);
}

/// Every image that is there is either sent or remarked on.
pub proof fn law_no_image_is_passed_over(input: Seq<char>, there: Seq<bool>, sees: bool)
    ensures
        prepared(input, there, sees).images.len() + prepared(input, there, sees).notices.len()
            == those_there(mentioned_in(editor::words(input)), there).len(),
{
}

/// The type of an image by its path.
pub open spec fn mime_type(path: Seq<char>) -> Seq<char> {
    if text::has_suffix(path, ".png"@) {
        "image/png"@
    } else {
        "image/jpeg"@
    }
}

/// The base64 text of bytes, as `base64` encodes them.
pub uninterp spec fn base64_text(bytes: Seq<u8>) -> Seq<char>;

/// Encodes bytes (`base64::engine::general_purpose::STANDARD.encode`). The
/// outcome is named `base64_text`: it depends on the bytes alone. Decoding it
/// with the same engine gives the bytes back, and it is empty only where there
/// are no bytes.
#[verifier::external_body]
fn encode_base64(bytes: &Vec<u8>) -> (r: String)
    ensures
        r@ == base64_text(bytes@),
        runtime::base64_bytes(r@) == Some(bytes@),
        r@.len() == 0 <==> bytes@.len() == 0,
{
    base64::Engine::encode(&base64::engine::general_purpose::STANDARD, bytes)
}

/// An image that goes with a message.
#[derive(Debug, PartialEq)]
pub struct Attachment {
    pub mime: String,
    pub data: String,
}

/// The model of an image that goes with a message.
#[verifier::ext_equal]
pub struct AttachmentView {
    pub mime: Seq<char>,
    pub data: Seq<char>,
}

impl View for Attachment {
    type V = AttachmentView;

    open spec fn view(&self) -> AttachmentView {
        AttachmentView { mime: self.mime@, data: self.data@ }
    }
}

/// An image, as it goes with a message: its type, and its bytes in base64.
/// Nothing where the file is empty.
pub fn attachment(path: &str, bytes: &Vec<u8>) -> (r: Option<Attachment>)
    ensures
        match r {
            Some(a) => {
                &&& bytes@.len() > 0
                &&& a@ == (AttachmentView { mime: mime_type(path@), data: base64_text(bytes@) })
                &&& runtime::base64_bytes(a@.data) == Some(bytes@)
                &&& a@.data.len() > 0
            },
            None => bytes@.len() == 0,
        },
{
    if bytes.len() == 0 {
        return None;
    }
    let mime = if text::ends_with(path, ".png") {
        "image/png"
    } else {
        "image/jpeg"
    };
    Some(Attachment { mime: mime.to_string(), data: encode_base64(bytes) })
}

/// The text of a message, as a part of it.
pub open spec fn text_block(prompt: Seq<char>) -> JsonView {
    wire::obj2("type"@, wire::txt("text"@), "text"@, wire::txt(prompt))
}

/// An image, as a part of a message.
pub open spec fn picture_block(a: AttachmentView) -> JsonView {
    wire::obj2(
        "type"@,
        wire::txt("image_url"@),
        "image_url"@,
        wire::obj1("url"@, wire::txt(wire::as_data_uri(a.mime, a.data))),
    )
}

/// The parts of a message with images.
pub open spec fn picture_blocks(prompt: Seq<char>, images: Seq<AttachmentView>) -> Seq<JsonView>
    decreases images.len(),
{
    if images.len() == 0 {
        seq![text_block(prompt)]
    } else {
        picture_blocks(prompt, images.drop_last()).push(picture_block(images.last()))
    }
}

/// A message of the user with images.
pub open spec fn picture_message(prompt: Seq<char>, images: Seq<AttachmentView>) -> JsonView {
    wire::obj2(
        "role"@,
        wire::txt("user"@),
        "content"@,
        JsonView::Array(picture_blocks(prompt, images)),
    )
}

fn make_block(a: &Attachment) -> (r: Json)
    ensures
        r@ == picture_block(a@),
{
    let url = text::cat4("data:", a.mime.as_str(), ";base64,", a.data.as_str());
    Json::empty_object().with("type", Json::text("image_url")).with(
        "image_url",
        Json::empty_object().with("url", Json::text(url.as_str())),
    )
}

fn make_message(prompt: &str, images: &Vec<Attachment>) -> (r: Json)
    ensures
        r@ == picture_message(prompt@, text::views(images@)),
{
    let ghost all = text::views(images@);
    let mut blocks: Vec<Json> = Vec::new();
    blocks.push(
        Json::empty_object().with("type", Json::text("text")).with("text", Json::text(prompt)),
    );
    let mut i: usize = 0;
    proof {
        json::lemma_items_view(blocks@);
        assert(all.subrange(0, 0) =~= Seq::empty());
        assert(json::items_view(blocks@) =~= seq![text_block(prompt@)]);
    }
    while i < images.len()
        invariant
            i <= images.len(),
            all == text::views(images@),
            json::items_view(blocks@) == picture_blocks(prompt@, all.subrange(0, i as int)),
        decreases images.len() - i,
    {
        let ghost before = blocks@;
        proof {
            let next = all.subrange(0, i + 1);
            assert(next.drop_last() =~= all.subrange(0, i as int));
            assert(next.last() == images@[i as int]@);
        }
        blocks.push(make_block(&images[i]));
        proof {
            json::lemma_items_view(before);
            json::lemma_items_view(blocks@);
            assert(json::items_view(blocks@) =~= json::items_view(before).push(
                picture_block(images@[i as int]@),
            ));
        }
        i = i + 1;
    }
    assert(all.subrange(0, all.len() as int) =~= all);
    Json::empty_object().with("role", Json::text("user")).with("content", Json::Array(blocks))
}

/// A turn whose last message goes with images.
pub open spec fn with_pictures(t: TurnView, images: Seq<AttachmentView>) -> TurnView {
    if images.len() == 0 || t.messages.len() == 0 {
        t
    } else {
        TurnView {
            messages: t.messages.update(
                t.messages.len() - 1,
                picture_message(wire::content_text(t.messages.last()), images),
            ),
            ..t
        }
    }
}

impl Turn {
    /// Sends images with the last message for the remote model.
    pub fn attach(&mut self, images: &Vec<Attachment>)
        ensures
            final(self)@ == with_pictures(old(self)@, text::views(images@)),
    {
        let n: usize = self.messages.len();
        proof {
            json::lemma_items_view(self.messages@);
        }
        if images.len() == 0 || n == 0 {
            return;
        }
        let prompt = wire::text_of(&self.messages[n - 1]);
        let message = make_message(prompt.as_str(), images);
        let ghost before = self.messages@;
        self.messages.set(n - 1, message);
        proof {
            json::lemma_items_view(self.messages@);
            assert(json::items_view(self.messages@) =~= json::items_view(before).update(
                n - 1,
                message@,
            ));
            assert(self@ =~= with_pictures(old(self)@, text::views(images@)));
        }
    }
}

/// The part of a message that an image is.
pub open spec fn image_part(a: AttachmentView) -> IrPartView {
    IrPartView::Image { mime: a.mime, data: a.data }
}

proof fn lemma_picture_is_read_back(a: AttachmentView)
    requires
        a.mime == "image/png"@ || a.mime == "image/jpeg"@,
        a.data.len() > 0,
    ensures
        wire::block_part(picture_block(a)) == Some(image_part(a)),
{
    reveal_strlit("data:");
    reveal_strlit(";base64,");
    reveal_strlit("image/png");
    reveal_strlit("image/jpeg");
    reveal_strlit("type");
    reveal_strlit("image_url");
    reveal_strlit("url");
    reveal_strlit("text");
    let mark = ";base64,"@;
    let url = wire::as_data_uri(a.mime, a.data);
    let rest = a.mime + mark + a.data;
    assert(url =~= "data:"@ + rest);
    assert(url.subrange(0, "data:"@.len() as int) =~= "data:"@);
    assert(url.subrange("data:"@.len() as int, url.len() as int) =~= rest);
    text::lemma_first_from(rest, mark, 0);
    assert(rest.subrange(a.mime.len() as int, a.mime.len() as int + mark.len()) =~= mark);
    assert(text::occurs_at(rest, mark, a.mime.len() as int));
    assert forall|j: int| 0 <= j < a.mime.len() implies !text::occurs_at(rest, mark, j) by {
        if text::occurs_at(rest, mark, j) {
            assert(rest.subrange(j, j + mark.len())[0] == mark[0]);
            assert(rest[j] == a.mime[j]);
        }
    }
    let i = text::first_at(rest, mark)->0;
    assert(i == a.mime.len());
    assert(rest.subrange(0, i) =~= a.mime);
    assert(rest.subrange(i + mark.len(), rest.len() as int) =~= a.data);
    assert("type"@.len() != "image_url"@.len());
    assert("image_url"@.len() != "text"@.len());
}

/// What goes with a message reaches every vendor's shape as it was: the text,
/// and behind it each image with its type and its base64 text.
pub proof fn law_attached_images_are_parts(prompt: Seq<char>, images: Seq<AttachmentView>)
    requires
        prompt.len() > 0,
        forall|k: int|
            0 <= k < images.len() ==> {
                &&& (#[trigger] images[k]).mime == "image/png"@ || images[k].mime == "image/jpeg"@
                &&& images[k].data.len() > 0
            },
    ensures
        wire::parts_of(picture_message(prompt, images)) == seq![IrPartView::Text(prompt)]
            + images.map_values(|a: AttachmentView| image_part(a)),
{
    reveal_strlit("role");
    reveal_strlit("content");
    assert("role"@.len() != "content"@.len());
    lemma_blocks_are_parts(prompt, images);
}

proof fn lemma_blocks_are_parts(prompt: Seq<char>, images: Seq<AttachmentView>)
    requires
        prompt.len() > 0,
        forall|k: int|
            0 <= k < images.len() ==> {
                &&& (#[trigger] images[k]).mime == "image/png"@ || images[k].mime == "image/jpeg"@
                &&& images[k].data.len() > 0
            },
    ensures
        wire::block_parts(picture_blocks(prompt, images)) == seq![IrPartView::Text(prompt)]
            + images.map_values(|a: AttachmentView| image_part(a)),
    decreases images.len(),
{
    let shown = images.map_values(|a: AttachmentView| image_part(a));
    if images.len() == 0 {
        let blocks = seq![text_block(prompt)];
        reveal_strlit("type");
        reveal_strlit("text");
        assert("type"@[1] != "text"@[1]);
        assert(blocks.drop_last() =~= Seq::empty());
        assert(wire::block_part(text_block(prompt)) == Some(IrPartView::Text(prompt)));
        assert(wire::block_parts(Seq::empty()) =~= Seq::empty());
        assert(wire::block_parts(blocks) =~= seq![IrPartView::Text(prompt)]);
        assert(seq![IrPartView::Text(prompt)] + shown =~= seq![IrPartView::Text(prompt)]);
    } else {
        let first = images.drop_last();
        assert forall|k: int| 0 <= k < first.len() implies {
            &&& (#[trigger] first[k]).mime == "image/png"@ || first[k].mime == "image/jpeg"@
            &&& first[k].data.len() > 0
        } by {
            assert(first[k] == images[k]);
        }
        lemma_blocks_are_parts(prompt, first);
        let last = images.last();
        assert(last == images[images.len() - 1]);
        lemma_picture_is_read_back(last);
        let blocks = picture_blocks(prompt, images);
        assert(blocks.drop_last() =~= picture_blocks(prompt, first));
        assert(seq![IrPartView::Text(prompt)] + shown =~= (seq![IrPartView::Text(prompt)]
            + first.map_values(|a: AttachmentView| image_part(a))).push(image_part(last)));
    }
}

/// A word that begins with `@` and ends as the name of an image does mentions that image; no
/// other word does.
pub proof fn law_word_mentions_image(ws: Seq<Seq<char>>, path: Seq<char>, w: Seq<char>)
    ensures
        text::has_suffix(path, ".png"@) || text::has_suffix(path, ".jpg"@) || text::has_suffix(
            path,
            ".jpeg"@,
        ) ==> mentioned_in(ws.push(seq!['@'] + path)) == mentioned_in(ws).push(path),
        w.len() == 0 || w[0] != '@' ==> mentioned_in(ws.push(w)) == mentioned_in(ws),
        !text::has_suffix(path, ".png"@) && !text::has_suffix(path, ".jpg"@) && !text::has_suffix(
            path,
            ".jpeg"@,
        ) ==> mentioned_in(ws.push(seq!['@'] + path)) == mentioned_in(ws),
        mentioned_in(Seq::empty()).len() == 0,
{
    reveal_strlit("@");
    let at = seq!['@'] + path;
    assert(at.subrange(0, 1) =~= "@"@);
    assert(at.subrange(1, at.len() as int) =~= path);
    assert(ws.push(at).drop_last() =~= ws);
    assert(ws.push(w).drop_last() =~= ws);
    if w.len() > 0 && w[0] != '@' {
        assert(w.subrange(0, 1)[0] == w[0]);
    }
}

/// A path is one of those at which there is a file.
pub open spec fn is_there(paths: Seq<Seq<char>>, there: Seq<bool>, path: Seq<char>) -> bool {
    exists|i: int| 0 <= i < paths.len() && there[i] && #[trigger] paths[i] == path
}

/// A part of a message that shows an image, as an address of its type and its payload.
pub open spec fn shows_image(block: JsonView, a: AttachmentView) -> bool {
    &&& block.field("type"@) == Some(JsonView::Text("image_url"@))
    &&& block.field("image_url"@) matches Some(u) && u.field("url"@) == Some(
        JsonView::Text("data:"@ + a.mime + ";base64,"@ + a.data),
    )
}

/// A model that sees gets every mentioned image whose file is there, and no other, in order, and
/// the message as it was.
pub proof fn law_images_go_with_message(input: Seq<char>, there: Seq<bool>)
    requires
        there.len() == mentioned_in(editor::words(input)).len(),
    ensures
        ({
            let paths = mentioned_in(editor::words(input));
            let p = prepared(input, there, true);
            &&& p.prompt == input
            &&& p.notices.len() == 0
            &&& forall|i: int|
                0 <= i < paths.len() && there[i] ==> p.images.contains(#[trigger] paths[i])
            &&& forall|k: int|
                0 <= k < p.images.len() ==> is_there(paths, there, #[trigger] p.images[k])
            &&& (forall|i: int| 0 <= i < there.len() ==> there[i]) ==> p.images == paths
        }),
{
    lemma_those_there(mentioned_in(editor::words(input)), there);
}

proof fn lemma_those_there(paths: Seq<Seq<char>>, there: Seq<bool>)
    requires
        paths.len() <= there.len(),
    ensures
        forall|i: int|
            0 <= i < paths.len() && there[i] ==> those_there(paths, there).contains(
                #[trigger] paths[i],
            ),
        forall|k: int|
            0 <= k < those_there(paths, there).len() ==> is_there(
                paths,
                there,
                #[trigger] those_there(paths, there)[k],
            ),
        (forall|i: int| 0 <= i < paths.len() ==> there[i]) ==> those_there(paths, there) == paths,
    decreases paths.len(),
{
    let found = those_there(paths, there);
    if paths.len() == 0 {
        assert(found =~= paths);
    } else {
        let less = paths.drop_last();
        lemma_those_there(less, there);
        let before = those_there(less, there);
        let n = paths.len() - 1;
        assert forall|i: int| 0 <= i < paths.len() && there[i] implies found.contains(
            #[trigger] paths[i],
        ) by {
            if i < n {
                assert(less[i] == paths[i]);
                assert(before.contains(less[i]));
                let k = choose|k: int| 0 <= k < before.len() && before[k] == less[i];
                assert(found[k] == paths[i]);
            } else {
                assert(found[found.len() - 1] == paths[i]);
            }
        }
        assert forall|k: int| 0 <= k < found.len() implies is_there(
            paths,
            there,
            #[trigger] found[k],
        ) by {
            if k < before.len() {
                assert(found[k] == before[k]);
                assert(is_there(less, there, before[k]));
                let i = choose|i: int|
                    0 <= i < less.len() && there[i] && #[trigger] less[i] == before[k];
                assert(paths[i] == found[k]);
            } else {
                assert(paths[n] == found[k]);
            }
        }
        if forall|i: int| 0 <= i < paths.len() ==> there[i] {
            assert(there[n]);
            assert(found =~= paths);
        }
    }
}

/// A model that does not see gets no image: for each one that is there, the message and the user
/// are told that it was not processed.
pub proof fn law_blind_model_is_told(paths: Seq<Seq<char>>, path: Seq<char>, input: Seq<char>)
    ensures
        warnings(Seq::empty()).len() == 0,
        warnings(paths.push(path)) == warnings(paths) + "\n[AVISO] "@ + (path
            + ": imagem não processada"@),
        forall|there: Seq<bool>|
            #![trigger prepared(input, there, false)]
            prepared(input, there, false).images.len() == 0 && prepared(
                input,
                there,
                false,
            ).prompt == input + warnings(prepared(input, there, true).images) && prepared(
                input,
                there,
                false,
            ).notices.len() == prepared(input, there, true).images.len() && forall|i: int|
                0 <= i < prepared(input, there, true).images.len() ==> #[trigger] prepared(
                    input,
                    there,
                    false,
                ).notices[i] == prepared(input, there, true).images[i]
                    + ": imagem não processada"@,
{
    assert(paths.push(path).drop_last() =~= paths);
}

/// Images go to the provider with the last message: its text stays, behind it stands each image
/// in order as an address of its type and its payload, and no other message changes.
pub proof fn law_images_join_last_message(t: TurnView, images: Seq<AttachmentView>)
    requires
        images.len() > 0,
        t.messages.len() > 0,
    ensures
        ({
            let after = with_pictures(t, images);
            let m = after.messages.last();
            &&& after.messages.len() == t.messages.len()
            &&& after.messages.drop_last() == t.messages.drop_last()
            &&& after.state == t.state
            &&& m.field("role"@) == Some(JsonView::Text("user"@))
            &&& m.field("content"@) matches Some(JsonView::Array(blocks)) && {
                &&& blocks.len() == 1 + images.len()
                &&& blocks[0].field("type"@) == Some(JsonView::Text("text"@))
                &&& forall|said: Seq<char>|
                    t.messages.last().field("content"@) == Some(JsonView::Text(said))
                        ==> blocks[0].field("text"@) == Some(JsonView::Text(said))
                &&& forall|i: int|
                    #![trigger images[i]]
                    0 <= i < images.len() ==> shows_image(blocks[1 + i], images[i])
            }
        }),
{
    reveal_strlit("role");
    reveal_strlit("content");
    reveal_strlit("type");
    reveal_strlit("text");
    reveal_strlit("image_url");
    assert("role"@.len() != "content"@.len());
    assert("type"@[1] != "text"@[1]);
    assert("type"@.len() != "image_url"@.len());
    let prompt = wire::content_text(t.messages.last());
    lemma_blocks_of_pictures(prompt, images);
    let after = with_pictures(t, images);
    assert(after.messages.drop_last() =~= t.messages.drop_last());
    let blocks = picture_blocks(prompt, images);
    assert forall|i: int| #![trigger images[i]] 0 <= i < images.len() implies shows_image(
        blocks[1 + i],
        images[i],
    ) by {
        assert(blocks[1 + i] == picture_block(images[i]));
    }
}

proof fn lemma_blocks_of_pictures(prompt: Seq<char>, images: Seq<AttachmentView>)
    ensures
        picture_blocks(prompt, images).len() == 1 + images.len(),
        picture_blocks(prompt, images)[0] == text_block(prompt),
        forall|i: int|
            #![trigger images[i]]
            0 <= i < images.len() ==> picture_blocks(prompt, images)[1 + i] == picture_block(
                images[i],
            ),
    decreases images.len(),
{
    if images.len() > 0 {
        let less = images.drop_last();
        lemma_blocks_of_pictures(prompt, less);
        assert forall|i: int| #![trigger images[i]] 0 <= i < images.len() implies picture_blocks(
            prompt,
            images,
        )[1 + i] == picture_block(images[i]) by {
            if i < less.len() {
                assert(less[i] == images[i]);
            }
        }
    }
}

/// The type of an image is told by the end of its name.
pub proof fn law_type_follows_name(path: Seq<char>)
    ensures
        text::has_suffix(path, ".png"@) ==> mime_type(path) == "image/png"@,
        text::has_suffix(path, ".jpg"@) || text::has_suffix(path, ".jpeg"@) ==> mime_type(path)
            == "image/jpeg"@,
{
    reveal_strlit(".png");
    reveal_strlit(".jpg");
    reveal_strlit(".jpeg");
    let n = path.len() as int;
    if text::has_suffix(path, ".png"@) {
        assert(path.subrange(n - 4, n)[1] == 'p');
        assert(path.subrange(n - 4, n)[2] == 'n');
        if text::has_suffix(path, ".jpg"@) {
            assert(path.subrange(n - 4, n)[2] == 'p');
        }
        if text::has_suffix(path, ".jpeg"@) {
            assert(path.subrange(n - 5, n)[3] == path[n - 2]);
            assert(path.subrange(n - 4, n)[2] == path[n - 2]);
        }
    }
}

} // verus!
