use crate::models::booking_details::{BookingId, BookingIdView};
use crate::text::{clone_opt_text, join2, join3, text_of};
use vstd::prelude::*;

verus! {

/// What the payment gateway last said of a payment.
#[derive(Debug)]
pub struct BEPaymentApiResponse {
    pub provider: String,
    pub payment_status: String,
    /// The gateway's numeric payment id of old; zero where there is none.
    pub payment_id: u64,
    /// The gateway's payment reference; empty where there is none.
    pub payment_id_v2: String,
}

/// What a `BEPaymentApiResponse` holds, as mathematical values.
pub struct BEPaymentApiResponseView {
    pub provider: Seq<char>,
    pub payment_status: Seq<char>,
    pub payment_id: u64,
    pub payment_id_v2: Seq<char>,
}

impl View for BEPaymentApiResponse {
    type V = BEPaymentApiResponseView;

    open spec fn view(&self) -> BEPaymentApiResponseView {
        BEPaymentApiResponseView {
            provider: self.provider@,
            payment_status: self.payment_status@,
            payment_id: self.payment_id,
            payment_id_v2: self.payment_id_v2@,
        }
    }
}

impl BEPaymentApiResponseView {
    pub open spec fn empty() -> BEPaymentApiResponseView {
        BEPaymentApiResponseView {
            provider: Seq::empty(),
            payment_status: Seq::empty(),
            payment_id: 0,
            payment_id_v2: Seq::empty(),
        }
    }
}

impl Clone for BEPaymentApiResponse {
    fn clone(&self) -> (r: Self)
        ensures
            r@ == self@,
    {
        BEPaymentApiResponse {
            provider: self.provider.clone(),
            payment_status: self.payment_status.clone(),
            payment_id: self.payment_id,
            payment_id_v2: self.payment_id_v2.clone(),
        }
    }
}

impl Default for BEPaymentApiResponse {
    fn default() -> (r: Self)
        ensures
            r@ == BEPaymentApiResponseView::empty(),
    {
        BEPaymentApiResponse {
            provider: String::new(),
            payment_status: String::new(),
            payment_id: 0,
            payment_id_v2: String::new(),
        }
    }
}

/// Whether a booking is paid.
#[derive(Debug)]
pub enum PaymentStatus {
    /// Paid, with the transaction reference of the payment provider.
    Paid(String),
    /// Not paid, with the reason where one is known.
    Unpaid(Option<String>),
}

/// The payment status as the store derives it from the gateway's answer.
pub type BackendPaymentStatus = PaymentStatus;

/// What a `PaymentStatus` holds, as mathematical values.
pub enum PaymentStatusView {
    Paid(Seq<char>),
    Unpaid(Option<Seq<char>>),
}

impl View for PaymentStatus {
    type V = PaymentStatusView;

    open spec fn view(&self) -> PaymentStatusView {
        match self {
            PaymentStatus::Paid(reference) => PaymentStatusView::Paid(reference@),
            PaymentStatus::Unpaid(reason) => PaymentStatusView::Unpaid(reason.deep_view()),
        }
    }
}

impl PaymentStatusView {
    /// The line that tells a person of the status.
    pub open spec fn display(self) -> Seq<char> {
        match self {
            PaymentStatusView::Paid(reference) => "Payment confirmed (Ref: "@ + reference + ")"@,
            PaymentStatusView::Unpaid(None) => "Awaiting payment"@,
            PaymentStatusView::Unpaid(Some(reason)) => "Payment failed: "@ + reason,
        }
    }
}

impl Clone for PaymentStatus {
    fn clone(&self) -> (r: Self)
        ensures
            r@ == self@,
    {
        match self {
            PaymentStatus::Paid(reference) => PaymentStatus::Paid(reference.clone()),
            PaymentStatus::Unpaid(reason) => PaymentStatus::Unpaid(clone_opt_text(reason)),
        }
    }
}

impl Default for PaymentStatus {
    fn default() -> (r: Self)
        ensures
            r@ == PaymentStatusView::Unpaid(None),
    {
        PaymentStatus::Unpaid(None)
    }
}

/// The payment of one booking.
#[derive(Debug)]
pub struct PaymentDetails {
    pub booking_id: BookingId,
    pub payment_status: PaymentStatus,
    pub payment_api_response: BEPaymentApiResponse,
}

/// What a `PaymentDetails` holds, as mathematical values.
pub struct PaymentDetailsView {
    pub booking_id: BookingIdView,
    pub payment_status: PaymentStatusView,
    pub payment_api_response: BEPaymentApiResponseView,
}

impl View for PaymentDetails {
    type V = PaymentDetailsView;

    open spec fn view(&self) -> PaymentDetailsView {
        PaymentDetailsView {
            booking_id: self.booking_id@,
            payment_status: self.payment_status@,
            payment_api_response: self.payment_api_response@,
        }
    }
}

impl PaymentDetailsView {
    /// The payment of a booking for which the gateway has said nothing yet.
    pub open spec fn fresh(booking_id: BookingIdView) -> PaymentDetailsView {
        PaymentDetailsView {
            booking_id,
            payment_status: PaymentStatusView::Unpaid(None),
            payment_api_response: BEPaymentApiResponseView::empty(),
        }
    }
}

impl Clone for PaymentDetails {
    fn clone(&self) -> (r: Self)
        ensures
            r@ == self@,
    {
        PaymentDetails {
            booking_id: self.booking_id.clone(),
            payment_status: self.payment_status.clone(),
            payment_api_response: self.payment_api_response.clone(),
        }
    }
}

impl Default for PaymentDetails {
    fn default() -> (r: Self)
        ensures
            r@ == PaymentDetailsView::fresh(BookingIdView::empty()),
    {
        PaymentDetails::new(BookingId::default())
    }
}

impl PaymentDetails {
    /// The payment of a booking for which the gateway has said nothing yet.
    pub fn new(booking_id: BookingId) -> (r: Self)
        ensures
            r@ == PaymentDetailsView::fresh(booking_id@),
    {
        PaymentDetails {
            booking_id,
            payment_status: PaymentStatus::Unpaid(None),
            payment_api_response: BEPaymentApiResponse::default(),
        }
    }

    /// Marks the booking as paid with the given transaction reference.
    pub fn process_payment(&mut self, transaction_ref: String) -> (r: Result<(), String>)
        ensures
            r is Ok,
            final(self)@ == (PaymentDetailsView {
                payment_status: PaymentStatusView::Paid(transaction_ref@),
                ..old(self)@
            }),
    {
        self.payment_status = PaymentStatus::Paid(transaction_ref);
        Ok(())
    }

    /// Marks the booking as not paid, for the given reason.
    pub fn mark_payment_failed(&mut self, error: String)
        ensures
            final(self)@ == (PaymentDetailsView {
                payment_status: PaymentStatusView::Unpaid(Some(error@)),
                ..old(self)@
            }),
    {
        self.payment_status = PaymentStatus::Unpaid(Some(error));
    }

    /// The line that tells a person of the payment status.
    pub fn get_status_display(&self) -> (r: String)
        ensures
            r@ == self@.payment_status.display(),
    {
        match &self.payment_status {
            PaymentStatus::Paid(reference) => join3(
                "Payment confirmed (Ref: ",
                reference.as_str(),
                ")",
            ),
            PaymentStatus::Unpaid(None) => text_of("Awaiting payment"),
            PaymentStatus::Unpaid(Some(reason)) => join2("Payment failed: ", reason.as_str()),
        }
    }

    pub fn is_paid(&self) -> (r: bool)
        ensures
            r == (self@.payment_status is Paid),
    {
        match &self.payment_status {
            PaymentStatus::Paid(_) => true,
            PaymentStatus::Unpaid(_) => false,
        }
    }
}

} // verus!
