//! Initialization of a virgin Keycard, bound to the creation of an account.
//!
//! A card is connected, selected and found virgin, initialized with fresh secrets, refreshed,
//! paired, put behind a secure channel, and made to generate its key. [`CardSetup`] decides, from
//! each reply of the card, what the card has to do next; a driver does it and reports back.
//! After the account was created, the hash of its VLAD is stored on the card.

use crate::binding;
use crate::encoding;
use crate::error;
use crate::error::{Error, ErrorView};
use crate::model;
use crate::path_map;
use crate::path_map::DEFAULT_PUBKEY_PATH;
use crate::plog::Vlad;
use crate::storage::{KeycardCredentials, KeycardCredentialsView};
use crate::text;
use crate::vlad_hash;
use crate::wallet::{KeycardWallet, KeycardWalletView};
use vstd::prelude::*;
use vstd::string::*;

verus! {

/// Secrets supplied on create; missing ones are generated.
#[derive(Debug, PartialEq, Eq)]
pub struct KeycardCreateSecrets {
    /// PIN (6 digits).
    pub pin: Option<String>,
    /// PUK (12 digits).
    pub puk: Option<String>,
    /// Pairing password.
    pub pairing_password: Option<String>,
}

/// [`KeycardCreateSecrets`] as a mathematical value.
#[verifier::ext_equal]
pub struct KeycardCreateSecretsView {
    pub pin: Option<Seq<char>>,
    pub puk: Option<Seq<char>>,
    pub pairing_password: Option<Seq<char>>,
}

impl View for KeycardCreateSecrets {
    type V = KeycardCreateSecretsView;

    open spec fn view(&self) -> KeycardCreateSecretsView {
        KeycardCreateSecretsView {
            pin: model::opt(self.pin),
            puk: model::opt(self.puk),
            pairing_password: model::opt(self.pairing_password),
        }
    }
}

impl Clone for KeycardCreateSecrets {
    fn clone(&self) -> (r: KeycardCreateSecrets)
        ensures
            r@ == self@,
    {
        KeycardCreateSecrets {
            pin: model::copy_opt_text(&self.pin),
            puk: model::copy_opt_text(&self.puk),
            pairing_password: model::copy_opt_text(&self.pairing_password),
        }
    }
}

impl Default for KeycardCreateSecrets {
    fn default() -> (r: KeycardCreateSecrets)
        ensures
            r@ == (KeycardCreateSecretsView { pin: None, puk: None, pairing_password: None }),
    {
        KeycardCreateSecrets { pin: None, puk: None, pairing_password: None }
    }
}

/// Complete secrets of a card.
#[derive(Debug, PartialEq, Eq)]
pub struct Secrets {
    /// PIN.
    pub pin: String,
    /// PUK.
    pub puk: String,
    /// Pairing password.
    pub pairing_password: String,
}

/// [`Secrets`] as a mathematical value.
#[verifier::ext_equal]
pub struct SecretsView {
    pub pin: Seq<char>,
    pub puk: Seq<char>,
    pub pairing_password: Seq<char>,
}

impl View for Secrets {
    type V = SecretsView;

    open spec fn view(&self) -> SecretsView {
        SecretsView {
            pin: self.pin@,
            puk: self.puk@,
            pairing_password: self.pairing_password@,
        }
    }
}

impl Clone for Secrets {
    fn clone(&self) -> (r: Secrets)
        ensures
            r@ == self@,
    {
        Secrets {
            pin: self.pin.clone(),
            puk: self.puk.clone(),
            pairing_password: self.pairing_password.clone(),
        }
    }
}

/// The given secret, or the generated one where none is given.
pub open spec fn given_or(given: Option<Seq<char>>, generated: Seq<char>) -> Seq<char> {
    match given {
        Some(s) => s,
        None => generated,
    }
}

/// The secrets to initialize a card with: the given ones, completed by generated ones.
pub open spec fn completed_secrets(
    opts: KeycardCreateSecretsView,
    generated: SecretsView,
) -> SecretsView {
    SecretsView {
        pin: given_or(opts.pin, generated.pin),
        puk: given_or(opts.puk, generated.puk),
        pairing_password: given_or(opts.pairing_password, generated.pairing_password),
    }
}

fn choose_secret(given: &Option<String>, generated: &String) -> (r: String)
    ensures
        r@ == given_or(model::opt(*given), generated@),
{
    match given {
        Some(s) => s.clone(),
        None => generated.clone(),
    }
}

/// Completes the given secrets by generated ones.
pub fn build_secrets(opts: &KeycardCreateSecrets, generated: &Secrets) -> (r: Secrets)
    ensures
        r@ == completed_secrets(opts@, generated@),
{
    Secrets {
        pin: choose_secret(&opts.pin, &generated.pin),
        puk: choose_secret(&opts.puk, &generated.puk),
        pairing_password: choose_secret(&opts.pairing_password, &generated.pairing_password),
    }
}

/// What selecting the card's application reports.
#[derive(Debug, PartialEq, Eq)]
pub struct ApplicationInfo {
    /// Identifier of the card's key, if it has one.
    pub key_uid: Option<Vec<u8>>,
    /// Identifier of the application instance; all zero before initialization.
    pub instance_uid: [u8; 16],
}

/// [`ApplicationInfo`] as a mathematical value.
#[verifier::ext_equal]
pub struct ApplicationInfoView {
    pub key_uid: Option<Seq<u8>>,
    pub instance_uid: Seq<u8>,
}

impl View for ApplicationInfo {
    type V = ApplicationInfoView;

    open spec fn view(&self) -> ApplicationInfoView {
        ApplicationInfoView { key_uid: model::opt(self.key_uid), instance_uid: self.instance_uid@ }
    }
}

/// Every byte is zero.
pub open spec fn all_zero(bytes: Seq<u8>) -> bool {
    forall|i: int| 0 <= i < bytes.len() ==> bytes[i] == 0
}

/// The card was never initialized: it has no key and no instance identifier.
pub open spec fn is_virgin(info: ApplicationInfoView) -> bool {
    info.key_uid is None && all_zero(info.instance_uid)
}

/// `true` or `false` as text.
pub open spec fn bool_text(b: bool) -> Seq<char> {
    if b {
        "true"@
    } else {
        "false"@
    }
}

/// Why a selected card cannot be initialized, if it cannot.
pub open spec fn virgin_fault(info: ApplicationInfoView) -> Option<ErrorView> {
    if is_virgin(info) {
        None
    } else {
        Some(
            ErrorView::KeycardNotVirgin(
                "card already initialized or has keys (key_uid present: "@ + bool_text(
                    info.key_uid is Some,
                ) + ", instance_uid non-zero: "@ + bool_text(!all_zero(info.instance_uid))
                    + ")"@,
            ),
        )
    }
}

fn text_of_bool(b: bool) -> (r: &'static str)
    ensures
        r@ == bool_text(b),
{
    if b {
        "true"
    } else {
        "false"
    }
}

fn zero16(bytes: &[u8; 16]) -> (r: bool)
    ensures
        r == all_zero(bytes@),
{
    let mut i: usize = 0;
    while i < 16
        invariant
            i <= 16,
            forall|k: int| 0 <= k < i ==> bytes@[k] == 0,
        decreases 16 - i,
    {
        if bytes[i] != 0 {
            assert(bytes@[i as int] != 0);
            return false;
        }
        i = i + 1;
    }
    true
}

/// Whether the selected card was never initialized.
pub fn is_virgin_app_info(info: &ApplicationInfo) -> (r: bool)
    ensures
        r == is_virgin(info@),
{
    info.key_uid.is_none() && zero16(&info.instance_uid)
}

fn check_virgin(info: &ApplicationInfo) -> (r: Result<(), Error>)
    ensures
        match r {
            Ok(()) => virgin_fault(info@) is None,
            Err(e) => virgin_fault(info@) == Some(e@),
        },
{
    if is_virgin_app_info(info) {
        return Ok(());
    }
    let mut m: String = text::concat3(
        "card already initialized or has keys (key_uid present: ",
        text_of_bool(info.key_uid.is_some()),
        ", instance_uid non-zero: ",
    );
    m.append(text_of_bool(!zero16(&info.instance_uid)));
    m.append(")");
    Err(Error::KeycardNotVirgin(m))
}

/// Pairing of the card with this host.
#[derive(Debug, PartialEq, Eq)]
pub struct PairingInfo {
    /// Pairing key.
    pub key: [u8; 32],
    /// Pairing slot.
    pub index: u8,
}

/// [`PairingInfo`] as a mathematical value.
#[verifier::ext_equal]
pub struct PairingInfoView {
    pub key: Seq<u8>,
    pub index: u8,
}

impl View for PairingInfo {
    type V = PairingInfoView;

    open spec fn view(&self) -> PairingInfoView {
        PairingInfoView { key: self.key@, index: self.index }
    }
}

/// Step of the setup of a card, named after what the card has to do next.
#[derive(Debug, PartialEq, Eq)]
pub enum SetupStep {
    /// Connect, with the PIN at hand.
    Connect,
    /// Select the application.
    Select,
    /// Initialize, with all secrets.
    Initialize,
    /// Refresh the connection after initialization.
    Refresh,
    /// Pair.
    Pair,
    /// Open the secure channel.
    OpenSecureChannel(PairingInfo),
    /// Generate the card's key.
    GenerateKey(PairingInfo),
    /// Nothing: the card is ready.
    Ready(PairingInfo),
}

/// A [`SetupStep`] as a mathematical value.
#[verifier::ext_equal]
pub enum SetupStepView {
    Connect,
    Select,
    Initialize,
    Refresh,
    Pair,
    OpenSecureChannel(PairingInfoView),
    GenerateKey(PairingInfoView),
    Ready(PairingInfoView),
}

impl View for SetupStep {
    type V = SetupStepView;

    open spec fn view(&self) -> SetupStepView {
        match self {
            SetupStep::Connect => SetupStepView::Connect,
            SetupStep::Select => SetupStepView::Select,
            SetupStep::Initialize => SetupStepView::Initialize,
            SetupStep::Refresh => SetupStepView::Refresh,
            SetupStep::Pair => SetupStepView::Pair,
            SetupStep::OpenSecureChannel(p) => SetupStepView::OpenSecureChannel(p@),
            SetupStep::GenerateKey(p) => SetupStepView::GenerateKey(p@),
            SetupStep::Ready(p) => SetupStepView::Ready(p@),
        }
    }
}

/// What the card replied.
#[derive(Debug, PartialEq, Eq)]
pub enum CardReply {
    /// It did what it was asked.
    Done,
    /// It was selected.
    Selected(ApplicationInfo),
    /// It was paired.
    Paired(PairingInfo),
    /// It was initialized before; in the card's words.
    AlreadyInitialized(String),
    /// It failed; in the card's words.
    Failed(String),
}

/// A [`CardReply`] as a mathematical value.
#[verifier::ext_equal]
pub enum CardReplyView {
    Done,
    Selected(ApplicationInfoView),
    Paired(PairingInfoView),
    AlreadyInitialized(Seq<char>),
    Failed(Seq<char>),
}

impl View for CardReply {
    type V = CardReplyView;

    open spec fn view(&self) -> CardReplyView {
        match self {
            CardReply::Done => CardReplyView::Done,
            CardReply::Selected(info) => CardReplyView::Selected(info@),
            CardReply::Paired(p) => CardReplyView::Paired(p@),
            CardReply::AlreadyInitialized(reason) => CardReplyView::AlreadyInitialized(reason@),
            CardReply::Failed(reason) => CardReplyView::Failed(reason@),
        }
    }
}

/// The error for a reply that does not belong to the step.
pub open spec fn out_of_order() -> ErrorView {
    ErrorView::Keycard("card reply does not belong to this step"@)
}

/// The step that follows on a reply, or the error that ends the setup. Being initialized before
/// is a matter of its own only where the card was asked to initialize itself.
pub open spec fn next_step(step: SetupStepView, reply: CardReplyView) -> Result<
    SetupStepView,
    ErrorView,
> {
    match (step, reply) {
        (_, CardReplyView::Failed(reason)) => Err(ErrorView::Keycard(reason)),
        (SetupStepView::Initialize, CardReplyView::AlreadyInitialized(reason)) => Err(
            ErrorView::KeycardNotVirgin(reason),
        ),
        (_, CardReplyView::AlreadyInitialized(reason)) => Err(ErrorView::Keycard(reason)),
        (SetupStepView::Connect, CardReplyView::Done) => Ok(SetupStepView::Select),
        (SetupStepView::Select, CardReplyView::Selected(info)) => match virgin_fault(info) {
            None => Ok(SetupStepView::Initialize),
            Some(e) => Err(e),
        },
        (SetupStepView::Initialize, CardReplyView::Done) => Ok(SetupStepView::Refresh),
        (SetupStepView::Refresh, CardReplyView::Done) => Ok(SetupStepView::Pair),
        (SetupStepView::Pair, CardReplyView::Paired(p)) => Ok(SetupStepView::OpenSecureChannel(p)),
        (SetupStepView::OpenSecureChannel(p), CardReplyView::Done) => Ok(
            SetupStepView::GenerateKey(p),
        ),
        (SetupStepView::GenerateKey(p), CardReplyView::Done) => Ok(SetupStepView::Ready(p)),
        _ => Err(out_of_order()),
    }
}

/// Setup of a virgin card.
#[derive(Debug, PartialEq, Eq)]
pub struct CardSetup {
    /// Secrets that the card is initialized with.
    pub secrets: Secrets,
    /// BIP32 path of `/pubkey`.
    pub derivation_path: String,
    /// What the card has to do next.
    pub step: SetupStep,
}

/// A [`CardSetup`] as a mathematical value.
#[verifier::ext_equal]
pub struct CardSetupView {
    pub secrets: SecretsView,
    pub derivation_path: Seq<char>,
    pub step: SetupStepView,
}

impl View for CardSetup {
    type V = CardSetupView;

    open spec fn view(&self) -> CardSetupView {
        CardSetupView {
            secrets: self.secrets@,
            derivation_path: self.derivation_path@,
            step: self.step@,
        }
    }
}

/// The setup after a reply.
pub open spec fn advanced(setup: CardSetupView, reply: CardReplyView) -> Result<
    CardSetupView,
    ErrorView,
> {
    match next_step(setup.step, reply) {
        Ok(step) => Ok(CardSetupView { step, ..setup }),
        Err(e) => Err(e),
    }
}

/// Initialized card, ready for a wallet.
pub struct InitializedKeycard<S> {
    /// Session with the card.
    pub session: S,
    /// Credentials that later loads need.
    pub credentials: KeycardCredentials,
    /// BIP32 path of `/pubkey`.
    pub derivation_path: String,
}

/// An [`InitializedKeycard`] as a mathematical value.
#[verifier::ext_equal]
pub struct InitializedKeycardView<S> {
    pub session: S,
    pub credentials: KeycardCredentialsView,
    pub derivation_path: Seq<char>,
}

impl<S> View for InitializedKeycard<S> {
    type V = InitializedKeycardView<S>;

    open spec fn view(&self) -> InitializedKeycardView<S> {
        InitializedKeycardView {
            session: self.session,
            credentials: self.credentials@,
            derivation_path: self.derivation_path@,
        }
    }
}

/// The credentials of a card that was initialized with `secrets` and paired.
pub open spec fn card_credentials(secrets: SecretsView, pairing: PairingInfoView) ->
    KeycardCredentialsView {
    KeycardCredentialsView {
        pin: secrets.pin,
        puk: secrets.puk,
        pairing_password: secrets.pairing_password,
        pairing_key_hex: encoding::hex_text(pairing.key),
        pairing_index: pairing.index,
    }
}

/// The initialized card that a finished setup gives.
pub open spec fn finished<S>(setup: CardSetupView, session: S) -> Result<
    InitializedKeycardView<S>,
    ErrorView,
> {
    match setup.step {
        SetupStepView::Ready(pairing) => Ok(
            InitializedKeycardView {
                session,
                credentials: card_credentials(setup.secrets, pairing),
                derivation_path: setup.derivation_path,
            },
        ),
        _ => Err(out_of_order()),
    }
}

/// What `str::to_lowercase` makes of a text.
pub uninterp spec fn lowercased(s: Seq<char>) -> Seq<char>;

/// The lower-case form of an ASCII character.
pub open spec fn ascii_lower(c: char) -> char {
    if 'A' <= c && c <= 'Z' {
        (c as u32 + 32) as char
    } else {
        c
    }
}

/// Every character is an ASCII character.
pub open spec fn is_ascii_text(s: Seq<char>) -> bool {
    forall|i: int| 0 <= i < s.len() ==> (#[trigger] s[i] as u32) < 128
}

/// An ASCII text with each letter in lower case.
pub open spec fn ascii_lowered(s: Seq<char>) -> Seq<char> {
    Seq::new(s.len(), |i: int| ascii_lower(s[i]))
}

/// Calls `str::to_lowercase`. Its result depends on the text alone; of an ASCII text it is the
/// text with each letter in lower case. What it is of other texts is left to the name.
#[verifier::external_body]
fn to_lowercase(s: &str) -> (r: String)
    ensures
        r@ == lowercased(s@),
        is_ascii_text(s@) ==> r@ == ascii_lowered(s@),
{
    s.to_lowercase()
}

/// The secret that answers a prompt of the card, by the prompt in lower case: the pairing
/// password if it speaks of pairing, else the PIN.
pub open spec fn prompt_answer(secrets: SecretsView, lower: Seq<char>) -> Seq<char> {
    if text::occurs_in(lower, "pairing"@) {
        secrets.pairing_password
    } else {
        secrets.pin
    }
}

impl Secrets {
    /// Answers a prompt of the card.
    pub fn answer(&self, prompt: &str) -> (r: String)
        ensures
            r@ == prompt_answer(self@, lowercased(prompt@)),
            is_ascii_text(prompt@) ==> r@ == prompt_answer(self@, ascii_lowered(prompt@)),
    {
        let lower: String = to_lowercase(prompt);
        self.answer_lowercase(lower.as_str())
    }

    /// Answers a prompt of the card, given in lower case.
    pub fn answer_lowercase(&self, lower: &str) -> (r: String)
        ensures
            r@ == prompt_answer(self@, lower@),
    {
        if text::contains(lower, "pairing") {
            self.pairing_password.clone()
        } else {
            self.pin.clone()
        }
    }
}

impl CardSetup {
    /// Starts the setup. `generated` completes the given secrets.
    pub fn start(
        opts: &KeycardCreateSecrets,
        generated: &Secrets,
        derivation_path: Option<&str>,
    ) -> (r: CardSetup)
        ensures
            r@ == (CardSetupView {
                secrets: completed_secrets(opts@, generated@),
                derivation_path: path_map::derivation_or_default(model::opt(derivation_path)),
                step: SetupStepView::Connect,
            }),
    {
        let derivation: &str = match derivation_path {
            Some(d) => d,
            None => DEFAULT_PUBKEY_PATH,
        };
        CardSetup {
            secrets: build_secrets(opts, generated),
            derivation_path: derivation.to_owned(),
            step: SetupStep::Connect,
        }
    }

    /// Takes a reply of the card, and goes on to the next step.
    pub fn advance(self, reply: CardReply) -> (r: Result<CardSetup, Error>)
        ensures
            error::outcome(r) == advanced(self@, reply@),
    {
        let step: SetupStep = match (self.step, reply) {
            (_, CardReply::Failed(reason)) => {
                return Err(Error::Keycard(reason));
            },
            (SetupStep::Initialize, CardReply::AlreadyInitialized(reason)) => {
                return Err(Error::KeycardNotVirgin(reason));
            },
            (_, CardReply::AlreadyInitialized(reason)) => {
                return Err(Error::Keycard(reason));
            },
            (SetupStep::Connect, CardReply::Done) => SetupStep::Select,
            (SetupStep::Select, CardReply::Selected(info)) => match check_virgin(&info) {
                Ok(()) => SetupStep::Initialize,
                Err(e) => {
                    return Err(e);
                },
            },
            (SetupStep::Initialize, CardReply::Done) => SetupStep::Refresh,
            (SetupStep::Refresh, CardReply::Done) => SetupStep::Pair,
            (SetupStep::Pair, CardReply::Paired(p)) => SetupStep::OpenSecureChannel(p),
            (SetupStep::OpenSecureChannel(p), CardReply::Done) => SetupStep::GenerateKey(p),
            (SetupStep::GenerateKey(p), CardReply::Done) => SetupStep::Ready(p),
            _ => {
                return Err(Error::Keycard("card reply does not belong to this step".to_owned()));
            },
        };
        Ok(CardSetup { secrets: self.secrets, derivation_path: self.derivation_path, step })
    }

    /// Ends a finished setup: the card's credentials, with the session that was set up.
    pub fn finish<S>(self, session: S) -> (r: Result<InitializedKeycard<S>, Error>)
        ensures
            error::outcome(r) == finished(self@, session),
    {
        match self.step {
            SetupStep::Ready(pairing) => Ok(
                InitializedKeycard {
                    session,
                    credentials: KeycardCredentials {
                        pin: self.secrets.pin,
                        puk: self.secrets.puk,
                        pairing_password: self.secrets.pairing_password,
                        pairing_key_hex: encoding::encode_hex(pairing.key.as_slice()),
                        pairing_index: pairing.index,
                    },
                    derivation_path: self.derivation_path,
                },
            ),
            _ => Err(Error::Keycard("card reply does not belong to this step".to_owned())),
        }
    }
}

impl<S> InitializedKeycard<S> {
    /// A wallet over the initialized card, with the credentials.
    pub fn into_wallet(self) -> (r: Result<(KeycardWallet<S>, KeycardCredentials), Error>)
        ensures
            match path_map::derivation(path_map::bip32_parsed(self@.derivation_path)) {
                Ok(path) => r is Ok && r->Ok_0.0@ == KeycardWalletView::fresh(
                    self@.session,
                    Map::empty().insert("/pubkey"@, path),
                ) && r->Ok_0.1@ == self@.credentials,
                Err(e) => r is Err && r->Err_0@ == e,
            },
    {
        match KeycardWallet::new(self.session, Some(self.derivation_path.as_str())) {
            Ok(wallet) => Ok((wallet, self.credentials)),
            Err(e) => Err(e),
        }
    }
}

/// The record that binds a card to an account.
pub fn vlad_binding_record(vlad: &Vlad) -> (r: [u8; 32])
    ensures
        r@ == vlad_hash::vlad_text_hash(vlad@),
{
    vlad_hash::vlad_hash(vlad)
}

/// Verifies a card's public record, once it was read, against an account.
pub fn verify_vlad_binding(read: Result<Vec<u8>, Error>, vlad: &Vlad) -> (r: Result<(), Error>)
    ensures
        match (r, error::outcome(read)) {
            (Ok(()), Ok(data)) => binding::binding_fault(
                data,
                vlad_hash::vlad_text_hash(vlad@),
            ) is None,
            (Err(e), Ok(data)) => binding::binding_fault(data, vlad_hash::vlad_text_hash(vlad@))
                == Some(e@),
            (Err(e), Err(fault)) => e@ == fault,
            (Ok(()), Err(_)) => false,
        },
{
    match read {
        Ok(data) => binding::verify_card_vlad_binding(data.as_slice(), vlad),
        Err(e) => Err(e),
    }
}

/// The setup after a sequence of replies.
pub open spec fn replayed(setup: CardSetupView, replies: Seq<CardReplyView>) -> Result<
    CardSetupView,
    ErrorView,
>
    decreases replies.len(),
{
    if replies.len() == 0 {
        Ok(setup)
    } else {
        match replayed(setup, replies.drop_last()) {
            Ok(s) => advanced(s, replies.last()),
            Err(e) => Err(e),
        }
    }
}

/// How far a setup has come.
pub open spec fn progress(step: SetupStepView) -> int {
    match step {
        SetupStepView::Connect => 0,
        SetupStepView::Select => 1,
        SetupStepView::Initialize => 2,
        SetupStepView::Refresh => 3,
        SetupStepView::Pair => 4,
        SetupStepView::OpenSecureChannel(_) => 5,
        SetupStepView::GenerateKey(_) => 6,
        SetupStepView::Ready(_) => 7,
    }
}

/// No step is skipped or repeated: each accepted reply takes the setup exactly one step on, and
/// leaves its secrets and its derivation path as they are.
pub proof fn law_setup_goes_step_by_step(setup: CardSetupView, reply: CardReplyView)
    requires
        advanced(setup, reply) is Ok,
    ensures
        progress(advanced(setup, reply)->Ok_0.step) == progress(setup.step) + 1,
        advanced(setup, reply)->Ok_0.secrets == setup.secrets,
        advanced(setup, reply)->Ok_0.derivation_path == setup.derivation_path,
{
}

/// Only a virgin card is ever initialized: a setup that has come past selection was told, by its
/// second reply, of a card without key and without instance identifier.
pub proof fn law_only_virgin_cards_are_initialized(
    setup: CardSetupView,
    replies: Seq<CardReplyView>,
)
    requires
        setup.step is Connect,
        replayed(setup, replies) is Ok,
        progress(replayed(setup, replies)->Ok_0.step) >= 2,
    ensures
        replies.len() >= 2,
        replies[1] is Selected,
        is_virgin(replies[1]->Selected_0),
    decreases replies.len(),
{
    lemma_progress_counts_replies(setup, replies);
    let before = replies.drop_last();
    lemma_progress_counts_replies(setup, before);
    if replies.len() > 2 {
        law_only_virgin_cards_are_initialized(setup, before);
    }
}

proof fn lemma_progress_counts_replies(setup: CardSetupView, replies: Seq<CardReplyView>)
    requires
        setup.step is Connect,
        replayed(setup, replies) is Ok,
    ensures
        progress(replayed(setup, replies)->Ok_0.step) == replies.len(),
    decreases replies.len(),
{
    if replies.len() > 0 {
        lemma_progress_counts_replies(setup, replies.drop_last());
    }
}

/// A card is ready exactly after the seven replies of a successful setup, and its credentials
/// are the secrets it was initialized with and the pairing it reported.
pub proof fn law_finished_setup_gives_credentials<S>(
    setup: CardSetupView,
    info: ApplicationInfoView,
    pairing: PairingInfoView,
    session: S,
)
    requires
        setup.step is Connect,
        is_virgin(info),
    ensures
        ({
            let replies = seq![
                CardReplyView::Done,
                CardReplyView::Selected(info),
                CardReplyView::Done,
                CardReplyView::Done,
                CardReplyView::Paired(pairing),
                CardReplyView::Done,
                CardReplyView::Done,
            ];
            &&& replayed(setup, replies) is Ok
            &&& finished(replayed(setup, replies)->Ok_0, session) == Ok::<
                InitializedKeycardView<S>,
                ErrorView,
            >(
                InitializedKeycardView {
                    session,
                    credentials: card_credentials(setup.secrets, pairing),
                    derivation_path: setup.derivation_path,
                },
            )
        }),
{
    let replies = seq![
        CardReplyView::Done,
        CardReplyView::Selected(info),
        CardReplyView::Done,
        CardReplyView::Done,
        CardReplyView::Paired(pairing),
        CardReplyView::Done,
        CardReplyView::Done,
    ];
    let r6 = replies.drop_last();
    let r5 = r6.drop_last();
    let r4 = r5.drop_last();
    let r3 = r4.drop_last();
    let r2 = r3.drop_last();
    let r1 = r2.drop_last();
    let r0 = r1.drop_last();
    assert(replayed(setup, r0) == Ok::<CardSetupView, ErrorView>(setup));
    assert(replayed(setup, r1)->Ok_0.step is Select);
    assert(replayed(setup, r2)->Ok_0.step is Initialize);
    assert(replayed(setup, r3)->Ok_0.step is Refresh);
    assert(replayed(setup, r4)->Ok_0.step is Pair);
    assert(replayed(setup, r5)->Ok_0.step == SetupStepView::OpenSecureChannel(pairing));
    assert(replayed(setup, r6)->Ok_0.step == SetupStepView::GenerateKey(pairing));
}

/// Given secrets are never replaced by generated ones.
pub proof fn law_given_secrets_are_used(opts: KeycardCreateSecretsView, generated: SecretsView)
    ensures
        opts.pin is Some ==> completed_secrets(opts, generated).pin == opts.pin->Some_0,
        opts.puk is Some ==> completed_secrets(opts, generated).puk == opts.puk->Some_0,
        opts.pairing_password is Some ==> completed_secrets(opts, generated).pairing_password
            == opts.pairing_password->Some_0,
{
}

/// A secret that was not given is the generated one.
pub proof fn law_missing_secrets_are_generated(
    opts: KeycardCreateSecretsView,
    generated: SecretsView,
    given: Seq<char>,
)
    ensures
        opts.pin is None ==> completed_secrets(opts, generated).pin == generated.pin,
        opts.puk is None ==> completed_secrets(opts, generated).puk == generated.puk,
        opts.pairing_password is None ==> completed_secrets(opts, generated).pairing_password
            == generated.pairing_password,
        given_or(Some(given), generated.pin) == given,
        given_or(None, generated.pin) == generated.pin,
{
}

/// A card is virgin exactly if it has no key and every byte of its instance identifier is zero.
/// One that is not is refused, and told which of the two it has.
pub proof fn law_virgin_cards(info: ApplicationInfoView)
    ensures
        is_virgin(info) <==> info.key_uid is None && forall|i: int|
            0 <= i < info.instance_uid.len() ==> info.instance_uid[i] == 0u8,
        is_virgin(info) ==> virgin_fault(info) is None,
        !is_virgin(info) ==> virgin_fault(info) == Some(
            ErrorView::KeycardNotVirgin(
                "card already initialized or has keys (key_uid present: "@ + (
                if info.key_uid is Some {
                    "true"@
                } else {
                    "false"@
                }) + ", instance_uid non-zero: "@ + (if exists|i: int|
                    0 <= i < info.instance_uid.len() && info.instance_uid[i] != 0u8 {
                    "true"@
                } else {
                    "false"@
                }) + ")"@,
            ),
        ),
        all_zero(info.instance_uid) <==> forall|i: int|
            0 <= i < info.instance_uid.len() ==> info.instance_uid[i] == 0u8,
        bool_text(true) == "true"@,
        bool_text(false) == "false"@,
{
}

/// The card is connected, selected, initialized, refreshed, paired, put behind a secure channel
/// and made to generate its key, in this order; the pairing that it reported is kept.
pub proof fn law_order_of_setup(info: ApplicationInfoView, p: PairingInfoView)
    ensures
        next_step(SetupStepView::Connect, CardReplyView::Done) == Ok::<SetupStepView, ErrorView>(
            SetupStepView::Select,
        ),
        is_virgin(info) ==> next_step(SetupStepView::Select, CardReplyView::Selected(info)) == Ok::<
            SetupStepView,
            ErrorView,
        >(SetupStepView::Initialize),
        !is_virgin(info) ==> next_step(SetupStepView::Select, CardReplyView::Selected(info))
            == Err::<SetupStepView, ErrorView>(virgin_fault(info)->Some_0),
        next_step(SetupStepView::Initialize, CardReplyView::Done) == Ok::<
            SetupStepView,
            ErrorView,
        >(SetupStepView::Refresh),
        next_step(SetupStepView::Refresh, CardReplyView::Done) == Ok::<SetupStepView, ErrorView>(
            SetupStepView::Pair,
        ),
        next_step(SetupStepView::Pair, CardReplyView::Paired(p)) == Ok::<SetupStepView, ErrorView>(
            SetupStepView::OpenSecureChannel(p),
        ),
        next_step(SetupStepView::OpenSecureChannel(p), CardReplyView::Done) == Ok::<
            SetupStepView,
            ErrorView,
        >(SetupStepView::GenerateKey(p)),
        next_step(SetupStepView::GenerateKey(p), CardReplyView::Done) == Ok::<
            SetupStepView,
            ErrorView,
        >(SetupStepView::Ready(p)),
{
}

/// A failure of the card ends the setup in the card's words, at every step. That it was
/// initialized before is told as such where it was asked to initialize itself. A reply that does
/// not belong to the step ends the setup too.
pub proof fn law_setup_failures(step: SetupStepView, reply: CardReplyView, reason: Seq<char>)
    ensures
        next_step(step, CardReplyView::Failed(reason)) == Err::<SetupStepView, ErrorView>(
            ErrorView::Keycard(reason),
        ),
        step is Initialize ==> next_step(step, CardReplyView::AlreadyInitialized(reason)) == Err::<
            SetupStepView,
            ErrorView,
        >(ErrorView::KeycardNotVirgin(reason)),
        step !is Initialize ==> next_step(step, CardReplyView::AlreadyInitialized(reason))
            == Err::<SetupStepView, ErrorView>(ErrorView::Keycard(reason)),
        reply is Selected && step !is Select || reply is Paired && step !is Pair || reply is Done
            && (step is Select || step is Pair || step is Ready) ==> next_step(step, reply)
            == Err::<SetupStepView, ErrorView>(
            ErrorView::Keycard("card reply does not belong to this step"@),
        ),
        out_of_order() == ErrorView::Keycard("card reply does not belong to this step"@),
{
}

/// A setup goes where its step goes, with the secrets and the derivation path that it has.
pub proof fn law_setup_follows_its_step(setup: CardSetupView, reply: CardReplyView)
    ensures
        next_step(setup.step, reply) is Err ==> advanced(setup, reply) == Err::<
            CardSetupView,
            ErrorView,
        >(next_step(setup.step, reply)->Err_0),
        next_step(setup.step, reply) is Ok ==> {
            &&& advanced(setup, reply) is Ok
            &&& advanced(setup, reply)->Ok_0.step == next_step(setup.step, reply)->Ok_0
            &&& advanced(setup, reply)->Ok_0.secrets == setup.secrets
            &&& advanced(setup, reply)->Ok_0.derivation_path == setup.derivation_path
        },
{
}

/// Only a finished setup gives a card: with its session, its derivation path, the secrets that it
/// was initialized with, and the pairing, whose key is told in hexadecimal.
pub proof fn law_finished_setup<S>(setup: CardSetupView, pairing: PairingInfoView, session: S)
    ensures
        setup.step == SetupStepView::Ready(pairing) ==> {
            &&& finished(setup, session) is Ok
            &&& finished(setup, session)->Ok_0.session == session
            &&& finished(setup, session)->Ok_0.derivation_path == setup.derivation_path
            &&& finished(setup, session)->Ok_0.credentials.pin == setup.secrets.pin
            &&& finished(setup, session)->Ok_0.credentials.puk == setup.secrets.puk
            &&& finished(setup, session)->Ok_0.credentials.pairing_password
                == setup.secrets.pairing_password
            &&& finished(setup, session)->Ok_0.credentials.pairing_key_hex == encoding::hex_text(
                pairing.key,
            )
            &&& finished(setup, session)->Ok_0.credentials.pairing_index == pairing.index
        },
        setup.step !is Ready ==> finished(setup, session) == Err::<
            InitializedKeycardView<S>,
            ErrorView,
        >(ErrorView::Keycard("card reply does not belong to this step"@)),
{
}

/// A prompt that speaks of pairing is answered with the pairing password, every other one with
/// the PIN.
pub proof fn law_prompts(secrets: SecretsView, lower: Seq<char>)
    ensures
        text::occurs_in(lower, "pairing"@) ==> prompt_answer(secrets, lower)
            == secrets.pairing_password,
        !text::occurs_in(lower, "pairing"@) ==> prompt_answer(secrets, lower) == secrets.pin,
{
}

/// Lower case changes the twenty-six capital letters of ASCII, and no other ASCII character, each
/// in its place.
pub proof fn law_lower_case(s: Seq<char>, i: int, c: char)
    requires
        0 <= i < s.len(),
    ensures
        ascii_lowered(s).len() == s.len(),
        ascii_lowered(s)[i] == ascii_lower(s[i]),
        65 <= c as int <= 90 ==> ascii_lower(c) as int == c as int + 32,
        !(65 <= c as int <= 90) ==> ascii_lower(c) == c,
        is_ascii_text(s) && 0 <= i < s.len() ==> (s[i] as u32) < 128,
        (forall|k: int| 0 <= k < s.len() ==> (#[trigger] s[k] as u32) < 128) ==> is_ascii_text(s),
{
}

/// The fields of what a setup works on are their values.
pub proof fn law_setup_values<S>(
    opts: KeycardCreateSecrets,
    s: Secrets,
    info: ApplicationInfo,
    p: PairingInfo,
    c: CardSetup,
    k: InitializedKeycard<S>,
    reason: String,
)
    ensures
        opts@.pin == model::opt(opts.pin) && opts@.puk == model::opt(opts.puk),
        opts@.pairing_password == model::opt(opts.pairing_password),
        s@.pin == s.pin@ && s@.puk == s.puk@ && s@.pairing_password == s.pairing_password@,
        info@.key_uid == model::opt(info.key_uid) && info@.instance_uid == info.instance_uid@,
        p@.key == p.key@ && p@.index == p.index,
        c@.secrets == c.secrets@ && c@.derivation_path == c.derivation_path@,
        c@.step == c.step@,
        k@.session == k.session && k@.credentials == k.credentials@,
        k@.derivation_path == k.derivation_path@,
        SetupStep::Connect@ is Connect && SetupStep::Select@ is Select,
        SetupStep::Initialize@ is Initialize && SetupStep::Refresh@ is Refresh,
        SetupStep::Pair@ is Pair,
        SetupStep::OpenSecureChannel(p)@ == SetupStepView::OpenSecureChannel(p@),
        SetupStep::GenerateKey(p)@ == SetupStepView::GenerateKey(p@),
        SetupStep::Ready(p)@ == SetupStepView::Ready(p@),
        CardReply::Done@ is Done,
        CardReply::Selected(info)@ == CardReplyView::Selected(info@),
        CardReply::Paired(p)@ == CardReplyView::Paired(p@),
        CardReply::AlreadyInitialized(reason)@ == CardReplyView::AlreadyInitialized(reason@),
        CardReply::Failed(reason)@ == CardReplyView::Failed(reason@),
{
}

}
